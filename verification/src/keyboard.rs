//! Keys, slots and the keyboard layout.
use vstd::prelude::*;

use rand::rngs::SmallRng;

use crate::constants::{
    ASCII_CNT, BOT_ROW, BOT_ROW_CNT, HOME_ROW, HOME_ROW_CNT, L_EXT, L_MIDDLE, L_PINKY, L_RING,
    NUM_ROW, NUM_ROW_CNT, R_MIDDLE, R_PINKY, R_PIPE, R_RING, TOP_ROW, TOP_ROW_CNT,
};

use crate::eval_funcs::{
    check_key_no_hist, compare_slots, global_adjustments, lemma_compare_slots_bound, spec_check_key_no_hist,
    spec_compare_slots, spec_global_adjustments, KeyCompare,
};
use crate::mapped_swap::{shuffle_check, spec_shuffle_check};
use crate::random::{random_range_inclusive, shuffle_slots};
use crate::kb_builders::{
    apply_placement, entry_slots, get_valid_key_locs_sorted, is_placement, is_stable_sort,
    is_stable_sort_perm, lemma_apply_placement, lemma_can_extend_iff_placement,
    lemma_entry_slots_in_layout, lemma_layout_set, lemma_std_key_chars, lemma_witness,
    layout_set, layout_slot, place_keys, slots_in_table, spec_key_locs, std_key, witness,
    can_extend, KEY_CNT, layout_index, lemma_layout_index, alpha_slot, first_placement, qwerty_std,
    qwerty_layout, lemma_qwerty_perm, place_qwerty_keys, dvorak_std, dvorak_layout,
    lemma_dvorak_perm, place_dvorak_keys,
};

verus! {

/// Whether `(row, col)` names a position that the keyboard accepts.
pub open spec fn spec_check_col(row: usize, col: usize) -> bool {
    if row == NUM_ROW {
        col <= NUM_ROW_CNT
    } else if row == TOP_ROW {
        col <= TOP_ROW_CNT
    } else if row == HOME_ROW {
        col <= HOME_ROW_CNT
    } else if row == BOT_ROW {
        col <= BOT_ROW_CNT
    } else {
        false
    }
}

/// A position on the keyboard.
#[derive(Clone, Copy, Debug, PartialEq, Eq, Structural, PartialOrd, Ord, Hash)]
pub struct Slot {
    pub row: usize,
    pub col: usize,
}

impl Slot {
    /// A slot that `from_tuple` accepts.
    pub open spec fn valid(self) -> bool {
        self.row <= BOT_ROW && spec_check_col(self.row, self.col)
    }

    /// A slot of a key that a finger reaches: its column is a finger's column.
    pub open spec fn on_hand(self) -> bool {
        self.row <= BOT_ROW && self.col <= R_PIPE
    }

    pub fn from_tuple(source: (usize, usize)) -> (slot: Self)
        requires
            source.0 <= BOT_ROW,
            spec_check_col(source.0, source.1),
        ensures
            slot.row == source.0,
            slot.col == source.1,
            slot.valid(),
    {
        Self { row: source.0, col: source.1 }
    }

    pub fn get_row(&self) -> (row: usize)
        ensures
            row == self.row,
    {
        self.row
    }

    pub fn get_col(&self) -> (col: usize)
        ensures
            col == self.col,
    {
        self.col
    }
}

/// A key: the character it types and the character it types with shift.
#[derive(Clone, Copy, Debug, PartialEq, Eq, Structural, PartialOrd, Ord, Hash)]
pub struct Key {
    pub base: u8,
    pub shift: u8,
}

impl Key {
    pub fn from_tuple(source: (u8, u8)) -> (key: Self)
        requires
            source.0 as usize <= ASCII_CNT,
            source.1 as usize <= ASCII_CNT,
        ensures
            key.base == source.0,
            key.shift == source.1,
    {
        Self { base: source.0, shift: source.1 }
    }

    pub fn get_base(self) -> (base: u8)
        ensures
            base == self.base,
    {
        self.base
    }

    pub fn get_shift(self) -> (shift: u8)
        ensures
            shift == self.shift,
    {
        self.shift
    }

    /// Whether the key types `c`, with or without shift.
    pub open spec fn types(self, c: u8) -> bool {
        self.base == c || self.shift == c
    }
}

#[derive(Clone, Copy, Debug, PartialEq, Eq, Structural)]
pub enum Hand {
    Left,
    Right,
}

pub open spec fn spec_hand(col: usize) -> Hand {
    if col <= L_EXT {
        Hand::Left
    } else {
        Hand::Right
    }
}

impl Hand {
    pub fn from_slot(slot: Slot) -> (hand: Self)
        requires
            slot.col <= R_PIPE,
        ensures
            hand == spec_hand(slot.col),
    {
        if slot.get_col() <= L_EXT {
            Hand::Left
        } else {
            Hand::Right
        }
    }
}

#[derive(Clone, Copy, Debug, PartialEq, Eq, Structural)]
pub enum Finger {
    Pinky,
    Ring,
    Middle,
    Index,
}

pub open spec fn spec_finger(col: usize) -> Finger {
    if col == L_PINKY || col >= R_PINKY {
        Finger::Pinky
    } else if col == L_RING || col == R_RING {
        Finger::Ring
    } else if col == L_MIDDLE || col == R_MIDDLE {
        Finger::Middle
    } else {
        Finger::Index
    }
}

impl Finger {
    pub fn from_slot(slot: Slot) -> (finger: Self)
        requires
            slot.col <= R_PIPE,
        ensures
            finger == spec_finger(slot.col),
    {
        let col = slot.get_col();
        if col == L_PINKY || (R_PINKY <= col && col <= R_PIPE) {
            Finger::Pinky
        } else if col == L_RING || col == R_RING {
            Finger::Ring
        } else if col == L_MIDDLE || col == R_MIDDLE {
            Finger::Middle
        } else {
            Finger::Index
        }
    }
}


/// Number of columns that a row of the slot table holds.
pub const TABLE_COLS: usize = 14;

/// Number of entries of the slot table: four rows of `TABLE_COLS` columns.
pub const TABLE_LEN: usize = 56;

/// A slot that the slot table can hold.
pub open spec fn in_table(s: Slot) -> bool {
    s.row < 4 && s.col < TABLE_COLS
}

pub open spec fn table_index(s: Slot) -> int {
    s.row * TABLE_COLS + s.col
}

/// The slot that the table stores at index `i`.
pub open spec fn table_slot(i: int) -> Slot {
    Slot { row: (i / TABLE_COLS as int) as usize, col: (i % TABLE_COLS as int) as usize }
}

pub proof fn lemma_table_index(s: Slot)
    requires
        in_table(s),
    ensures
        0 <= table_index(s) < TABLE_LEN,
        table_slot(table_index(s)) == s,
{
    assert(table_slot(table_index(s)) == s) by (nonlinear_arith)
        requires
            s.row < 4,
            s.col < 14,
    {
        let i = s.row * 14 + s.col;
        assert(i / 14 == s.row as int);
        assert(i % 14 == s.col as int);
    }
}

pub proof fn lemma_table_slot(i: int)
    requires
        0 <= i < TABLE_LEN,
    ensures
        in_table(table_slot(i)),
        table_index(table_slot(i)) == i,
{
    assert(0 <= i / 14 < 4 && 0 <= i % 14 < 14 && (i / 14) * 14 + i % 14 == i) by (nonlinear_arith)
        requires
            0 <= i < 56,
    ;
}

/// The keys placed on the keyboard, by slot; slots are visited in row order,
/// then column order.
#[derive(Debug)]
pub struct SlotMap {
    table: Vec<Option<Key>>,
}

impl View for SlotMap {
    type V = Map<Slot, Key>;

    closed spec fn view(&self) -> Map<Slot, Key> {
        Map::new(
            |s: Slot| in_table(s) && self.table@[table_index(s)] is Some,
            |s: Slot| self.table@[table_index(s)]->Some_0,
        )
    }
}

impl SlotMap {
    pub closed spec fn wf(&self) -> bool {
        self.table@.len() == TABLE_LEN
    }

    /// The key that the table stores at index `i`, if any.
    pub closed spec fn entry(&self, i: int) -> Option<Key> {
        self.table@[i]
    }

    pub proof fn lemma_entry(&self, i: int)
        requires
            self.wf(),
            0 <= i < TABLE_LEN,
        ensures
            self.entry(i) is Some <==> self@.dom().contains(table_slot(i)),
            self.entry(i) is Some ==> self@[table_slot(i)] == self.entry(i)->Some_0,
    {
        lemma_table_slot(i);
    }

    pub fn new() -> (map: Self)
        ensures
            map.wf(),
            map@ == Map::<Slot, Key>::empty(),
    {
        let mut table: Vec<Option<Key>> = Vec::new();
        let mut i: usize = 0;
        while i < TABLE_LEN
            invariant
                i <= TABLE_LEN,
                table@.len() == i,
                forall|j: int| 0 <= j < i ==> #[trigger] table@[j] is None,
            decreases TABLE_LEN - i,
        {
            table.push(None);
            i = i + 1;
        }
        let map = Self { table };
        assert(map@ =~= Map::<Slot, Key>::empty()) by {
            assert forall|s: Slot| !map@.dom().contains(s) by {
                if in_table(s) {
                    lemma_table_index(s);
                }
            }
        }
        map
    }

    fn index_of(slot: &Slot) -> (i: usize)
        requires
            in_table(*slot),
        ensures
            i == table_index(*slot),
            i < TABLE_LEN,
    {
        proof {
            lemma_table_index(*slot);
        }
        slot.row * TABLE_COLS + slot.col
    }

    pub fn contains_key(&self, slot: &Slot) -> (found: bool)
        requires
            self.wf(),
        ensures
            found == self@.dom().contains(*slot),
    {
        if slot.row >= 4 || slot.col >= TABLE_COLS {
            return false;
        }
        let i = Self::index_of(slot);
        self.table[i].is_some()
    }

    pub fn get(&self, slot: &Slot) -> (key: Option<Key>)
        requires
            self.wf(),
        ensures
            key == (if self@.dom().contains(*slot) {
                Some(self@[*slot])
            } else {
                None::<Key>
            }),
    {
        if slot.row >= 4 || slot.col >= TABLE_COLS {
            return None;
        }
        let i = Self::index_of(slot);
        self.table[i]
    }

    pub fn insert(&mut self, slot: Slot, key: Key)
        requires
            old(self).wf(),
            in_table(slot),
        ensures
            final(self).wf(),
            final(self)@ == old(self)@.insert(slot, key),
    {
        let i = Self::index_of(&slot);
        self.table[i] = Some(key);
        proof {
            assert forall|s: Slot| in_table(s) && s != slot implies table_index(s) != i by {
                lemma_table_index(s);
                lemma_table_index(slot);
            }
        }
        assert(self@ =~= old(self)@.insert(slot, key));
    }

    pub fn remove(&mut self, slot: &Slot)
        requires
            old(self).wf(),
        ensures
            final(self).wf(),
            final(self)@ == old(self)@.remove(*slot),
    {
        if slot.row >= 4 || slot.col >= TABLE_COLS {
            assert(self@ =~= old(self)@.remove(*slot));
            return;
        }
        let i = Self::index_of(slot);
        self.table[i] = None;
        proof {
            assert forall|s: Slot| in_table(s) && s != *slot implies table_index(s) != i by {
                lemma_table_index(s);
                lemma_table_index(*slot);
            }
        }
        assert(self@ =~= old(self)@.remove(*slot));
    }
}


// ---------------------------------------------------------------------------
// The keyboard
// ---------------------------------------------------------------------------

/// The outcome of evaluating a layout on the corpus, kept exact: the sum of
/// the efficiencies of the typed keys, in units of 10^-8, and how many keys
/// each hand typed. The score proper is `eff_sum / 10^8` scaled by the hand
/// balance, the smaller hand count over the larger.
#[derive(Clone, Copy, Debug, PartialEq, Eq, Structural)]
pub struct Score {
    pub eff_sum: u128,
    pub left_uses: u64,
    pub right_uses: u64,
}

pub open spec fn zero_score() -> Score {
    Score { eff_sum: 0, left_uses: 0, right_uses: 0 }
}

/// Two keys share a character.
pub open spec fn shares_char(a: Key, b: Key) -> bool {
    a.types(b.base) || a.types(b.shift)
}

/// `ascii[c]` is the slot of the key that types `c`, and `None` when no key
/// types `c`.
pub open spec fn ascii_consistent(layout: Map<Slot, Key>, ascii: Seq<Option<Slot>>) -> bool {
    &&& ascii.len() == ASCII_CNT
    &&& forall|c: int|
        0 <= c < ASCII_CNT && #[trigger] ascii[c] is Some ==> layout.dom().contains(ascii[c]->Some_0)
            && layout[ascii[c]->Some_0].types(c as u8)
    &&& forall|s: Slot|
        #[trigger] layout.dom().contains(s) ==> (layout[s].base as int) < ASCII_CNT && (
        layout[s].shift as int) < ASCII_CNT && ascii[layout[s].base as int] == Some(s) && ascii[
        layout[s].shift as int] == Some(s)
}

/// No key appears twice among the entries.
pub open spec fn keys_distinct(valid_slots: Seq<(Key, Vec<Slot>)>) -> bool {
    forall|i: int, j: int|
        0 <= i < valid_slots.len() && 0 <= j < valid_slots.len() && i != j ==> #[trigger] valid_slots[i].0
            != #[trigger] valid_slots[j].0
}

pub open spec fn has_entry(valid_slots: Seq<(Key, Vec<Slot>)>, key: Key) -> bool {
    exists|i: int| 0 <= i < valid_slots.len() && #[trigger] valid_slots[i].0 == key
}

pub open spec fn entry_index(valid_slots: Seq<(Key, Vec<Slot>)>, key: Key) -> int {
    choose|i: int| 0 <= i < valid_slots.len() && #[trigger] valid_slots[i].0 == key
}

/// The slots where `key` may go.
pub open spec fn valid_of(valid_slots: Seq<(Key, Vec<Slot>)>, key: Key) -> Seq<Slot> {
    valid_slots[entry_index(valid_slots, key)].1@
}

pub proof fn lemma_entry_index(valid_slots: Seq<(Key, Vec<Slot>)>, i: int)
    requires
        keys_distinct(valid_slots),
        0 <= i < valid_slots.len(),
    ensures
        has_entry(valid_slots, valid_slots[i].0),
        entry_index(valid_slots, valid_slots[i].0) == i,
        valid_of(valid_slots, valid_slots[i].0) == valid_slots[i].1@,
{
    assert(valid_slots[i].0 == valid_slots[i].0);
}

/// A keyboard layout with the bookkeeping of the search that produced it.
#[derive(Debug)]
pub struct Keyboard {
    key_slots: SlotMap,
    valid_slots: Vec<(Key, Vec<Slot>)>,
    slot_ascii: Vec<Option<Slot>>,
    last_slot_idx: Option<Slot>,
    prev_slot_idx: Option<Slot>,
    generation: usize,
    id: usize,
    evaluated: bool,
    score: Score,
    is_elite: bool,
    pos_iter: usize,
    last_score: Score,
    last_swap_a: (Slot, Key),
    last_swap_b: (Slot, Key),
}

impl Keyboard {
    /// The key in each slot.
    pub closed spec fn spec_layout(&self) -> Map<Slot, Key> {
        self.key_slots@
    }

    /// The slot of the key that types each ASCII character.
    pub closed spec fn spec_ascii(&self) -> Seq<Option<Slot>> {
        self.slot_ascii@
    }

    /// Each key with the slots where it may go.
    pub closed spec fn spec_valid_slots(&self) -> Seq<(Key, Vec<Slot>)> {
        self.valid_slots@
    }

    pub closed spec fn spec_generation(&self) -> usize {
        self.generation
    }

    pub closed spec fn spec_id(&self) -> usize {
        self.id
    }

    pub closed spec fn spec_evaluated(&self) -> bool {
        self.evaluated
    }

    pub closed spec fn spec_score(&self) -> Score {
        self.score
    }

    pub closed spec fn spec_is_elite(&self) -> bool {
        self.is_elite
    }

    pub closed spec fn spec_pos_iter(&self) -> usize {
        self.pos_iter
    }

    pub closed spec fn spec_last_score(&self) -> Score {
        self.last_score
    }

    /// The two (slot, key) pairs of the last swap, each key given with the
    /// slot it left.
    pub closed spec fn spec_last_swap(&self) -> ((Slot, Key), (Slot, Key)) {
        (self.last_swap_a, self.last_swap_b)
    }

    pub closed spec fn map_wf(&self) -> bool {
        self.key_slots.wf()
    }

    /// Every key sits in a slot of the keyboard, and the ASCII table points
    /// each character to the slot of the key that types it.
    pub open spec fn wf(&self) -> bool {
        &&& self.map_wf()
        &&& forall|s: Slot| #[trigger] self.spec_layout().dom().contains(s) ==> layout_slot(s)
        &&& ascii_consistent(self.spec_layout(), self.spec_ascii())
    }

    /// A keyboard that can be shuffled: every slot holds a key, each key has
    /// exactly one list of valid slots, and those lists name slots of the
    /// keyboard.
    pub open spec fn shuffle_ready(&self) -> bool {
        &&& self.wf()
        &&& forall|s: Slot| layout_slot(s) ==> #[trigger] self.spec_layout().dom().contains(s)
        &&& keys_distinct(self.spec_valid_slots())
        &&& forall|s: Slot|
            #[trigger] self.spec_layout().dom().contains(s) ==> has_entry(
                self.spec_valid_slots(),
                self.spec_layout()[s],
            )
        &&& forall|i: int, j: int|
            0 <= i < self.spec_valid_slots().len() && 0 <= j < self.spec_valid_slots()[i].1@.len()
                ==> layout_slot(#[trigger] self.spec_valid_slots()[i].1@[j])
    }

    /// Every key sits in one of its own valid slots.
    pub open spec fn all_valid(&self) -> bool {
        forall|s: Slot|
            #[trigger] self.spec_layout().dom().contains(s) ==> valid_of(
                self.spec_valid_slots(),
                self.spec_layout()[s],
            ).contains(s)
    }
}

/// Builds the table from each ASCII character to the slot of the key that
/// types it.
fn build_slot_ascii(key_slots: &SlotMap) -> (slot_ascii: Vec<Option<Slot>>)
    requires
        key_slots.wf(),
        forall|s: Slot|
            #[trigger] key_slots@.dom().contains(s) ==> (key_slots@[s].base as int) < ASCII_CNT && (
            key_slots@[s].shift as int) < ASCII_CNT,
        forall|s1: Slot, s2: Slot|
            #[trigger] key_slots@.dom().contains(s1) && #[trigger] key_slots@.dom().contains(s2)
                && s1 != s2 ==> !shares_char(key_slots@[s1], key_slots@[s2]),
    ensures
        ascii_consistent(key_slots@, slot_ascii@),
{
    let ghost m = key_slots@;
    let mut slot_ascii: Vec<Option<Slot>> = Vec::new();
    let mut c: usize = 0;
    while c < ASCII_CNT
        invariant
            c <= ASCII_CNT,
            slot_ascii@.len() == c,
            forall|k: int| 0 <= k < c ==> #[trigger] slot_ascii@[k] is None,
        decreases ASCII_CNT - c,
    {
        slot_ascii.push(None);
        c = c + 1;
    }
    let mut i: usize = 0;
    while i < TABLE_LEN
        invariant
            key_slots.wf(),
            m == key_slots@,
            i <= TABLE_LEN,
            slot_ascii@.len() == ASCII_CNT,
            forall|s: Slot|
                #[trigger] m.dom().contains(s) ==> (m[s].base as int) < ASCII_CNT && (m[s].shift as int)
                    < ASCII_CNT,
            forall|s1: Slot, s2: Slot|
                #[trigger] m.dom().contains(s1) && #[trigger] m.dom().contains(s2) && s1 != s2
                    ==> !shares_char(m[s1], m[s2]),
            forall|c: int|
                0 <= c < ASCII_CNT && #[trigger] slot_ascii@[c] is Some ==> m.dom().contains(
                    slot_ascii@[c]->Some_0,
                ) && table_index(slot_ascii@[c]->Some_0) < i && m[slot_ascii@[c]->Some_0].types(
                    c as u8,
                ),
            forall|s: Slot|
                #[trigger] m.dom().contains(s) && table_index(s) < i ==> slot_ascii@[m[s].base as int]
                    == Some(s) && slot_ascii@[m[s].shift as int] == Some(s),
        decreases TABLE_LEN - i,
    {
        proof {
            key_slots.lemma_entry(i as int);
            lemma_table_slot(i as int);
        }
        match key_slots.table[i] {
            Some(key) => {
                let slot = Slot { row: i / TABLE_COLS, col: i % TABLE_COLS };
                assert(slot == table_slot(i as int));
                assert(m.dom().contains(slot) && m[slot] == key);
                let ghost before = slot_ascii@;
                slot_ascii[key.base as usize] = Some(slot);
                slot_ascii[key.shift as usize] = Some(slot);
                proof {
                    assert forall|c: int|
                        0 <= c < ASCII_CNT && #[trigger] slot_ascii@[c] is Some implies m.dom().contains(
                            slot_ascii@[c]->Some_0,
                        ) && table_index(slot_ascii@[c]->Some_0) < i + 1 && m[slot_ascii@[c]->Some_0].types(
                            c as u8,
                        ) by {
                        if c != key.base as int && c != key.shift as int {
                            assert(slot_ascii@[c] == before[c]);
                        }
                    }
                    assert forall|s: Slot|
                        #[trigger] m.dom().contains(s) && table_index(s) < i + 1 implies slot_ascii@[
                            m[s].base as int] == Some(s) && slot_ascii@[m[s].shift as int] == Some(s) by {
                        if s != slot {
                            lemma_table_index(s);
                            assert(table_index(s) != i);
                            assert(!shares_char(m[s], key));
                            assert(!shares_char(key, m[s]));
                        }
                    }
                }
            },
            None => {
                proof {
                    assert forall|s: Slot|
                        #[trigger] m.dom().contains(s) && table_index(s) < i + 1 implies slot_ascii@[
                            m[s].base as int] == Some(s) && slot_ascii@[m[s].shift as int] == Some(s) by {
                        lemma_table_index(s);
                        if table_index(s) == i {
                            assert(table_slot(i as int) == s);
                        }
                    }
                }
            },
        }
        i = i + 1;
    }
    proof {
        assert forall|s: Slot| #[trigger] m.dom().contains(s) implies table_index(s) < TABLE_LEN by {
            lemma_table_index(s);
        }
    }
    slot_ascii
}


/// What the sorted key list gives the first layout: its slots are slots of
/// the keyboard, its keys are distinct and type distinct ASCII characters,
/// and all keys can be placed.
proof fn lemma_sorted_key_locs(kl: Seq<(Key, Vec<Slot>)>)
    requires
        is_stable_sort(spec_key_locs(), kl),
    ensures
        kl.len() == KEY_CNT,
        slots_in_table(kl),
        keys_distinct(kl),
        forall|i: int, j: int|
            0 <= i < kl.len() && 0 <= j < kl[i].1@.len() ==> layout_slot(#[trigger] kl[i].1@[j]),
        forall|i: int|
            0 <= i < kl.len() ==> (#[trigger] kl[i].0.base as int) < ASCII_CNT && (kl[i].0.shift as int)
                < ASCII_CNT,
        forall|i1: int, i2: int|
            0 <= i1 < kl.len() && 0 <= i2 < kl.len() && i1 != i2 ==> !shares_char(
                #[trigger] kl[i1].0,
                #[trigger] kl[i2].0,
            ),
        can_extend(Map::<Slot, Key>::empty(), kl, 0),
{
    let perm = choose|perm: Seq<int>| #[trigger] is_stable_sort_perm(spec_key_locs(), kl, perm);
    assert forall|i: int| 0 <= i < kl.len() implies kl[i].0 == std_key(#[trigger] perm[i])
        && kl[i].1@ == entry_slots(perm[i]) && 0 <= perm[i] < KEY_CNT by {}
    assert forall|i: int, j: int|
        0 <= i < kl.len() && 0 <= j < kl[i].1@.len() implies layout_slot(#[trigger] kl[i].1@[j]) by {
        assert(entry_slots(perm[i]).contains(kl[i].1@[j]));
        lemma_entry_slots_in_layout(perm[i], kl[i].1@[j]);
    }
    assert(slots_in_table(kl));
    assert forall|i: int|
        0 <= i < kl.len() implies (#[trigger] kl[i].0.base as int) < ASCII_CNT && (kl[i].0.shift as int)
        < ASCII_CNT by {
        lemma_std_key_chars(perm[i]);
    }
    assert forall|i1: int, i2: int|
        0 <= i1 < kl.len() && 0 <= i2 < kl.len() && i1 != i2 implies !shares_char(
        #[trigger] kl[i1].0,
        #[trigger] kl[i2].0,
    ) by {
        lemma_std_key_chars(perm[i1]);
        lemma_std_key_chars(perm[i2]);
    }
    assert forall|i: int, j: int|
        0 <= i < kl.len() && 0 <= j < kl.len() && i != j implies #[trigger] kl[i].0
        != #[trigger] kl[j].0 by {
        lemma_std_key_chars(perm[i]);
        lemma_std_key_chars(perm[j]);
    }
    let a = Seq::new(KEY_CNT as nat, |k: int| witness(perm[k]));
    assert forall|j: int| 0 <= j < a.len() implies kl[0 + j].1@.contains(#[trigger] a[j]) by {
        lemma_witness(perm[j]);
    }
    assert forall|j: int| 0 <= j < a.len() implies !Map::<Slot, Key>::empty().dom().contains(
        #[trigger] a[j],
    ) by {}
    assert forall|j1: int, j2: int| 0 <= j1 < a.len() && 0 <= j2 < a.len() && j1 != j2 implies a[j1]
        != a[j2] by {
        lemma_witness(perm[j1]);
        lemma_witness(perm[j2]);
    }
    assert(is_placement(Map::<Slot, Key>::empty(), kl, 0, a));
    lemma_can_extend_iff_placement(Map::<Slot, Key>::empty(), kl, 0);
}

/// A placement of the whole sorted key list fills every slot of the
/// keyboard, with each key in one of its valid slots.
proof fn lemma_full_placement(kl: Seq<(Key, Vec<Slot>)>, a: Seq<Slot>)
    requires
        kl.len() == KEY_CNT,
        keys_distinct(kl),
        forall|i: int, j: int|
            0 <= i < kl.len() && 0 <= j < kl[i].1@.len() ==> layout_slot(#[trigger] kl[i].1@[j]),
        forall|i: int|
            0 <= i < kl.len() ==> (#[trigger] kl[i].0.base as int) < ASCII_CNT && (kl[i].0.shift as int)
                < ASCII_CNT,
        forall|i1: int, i2: int|
            0 <= i1 < kl.len() && 0 <= i2 < kl.len() && i1 != i2 ==> !shares_char(
                #[trigger] kl[i1].0,
                #[trigger] kl[i2].0,
            ),
        is_placement(Map::<Slot, Key>::empty(), kl, 0, a),
    ensures
        ({
            let m = apply_placement(Map::<Slot, Key>::empty(), kl, 0, a);
            &&& m.dom() == layout_set()
            &&& forall|s: Slot|
                #[trigger] m.dom().contains(s) ==> (m[s].base as int) < ASCII_CNT && (m[s].shift as int)
                    < ASCII_CNT
            &&& forall|s1: Slot, s2: Slot|
                #[trigger] m.dom().contains(s1) && #[trigger] m.dom().contains(s2) && s1 != s2
                    ==> !shares_char(m[s1], m[s2])
            &&& forall|s: Slot| #[trigger] m.dom().contains(s) ==> has_entry(kl, m[s])
            &&& forall|s: Slot| #[trigger] m.dom().contains(s) ==> valid_of(kl, m[s]).contains(s)
        }),
{
    let empty = Map::<Slot, Key>::empty();
    let m = apply_placement(empty, kl, 0, a);
    lemma_apply_placement(empty, kl, 0, a);
    assert(m.dom() =~= a.to_set());
    a.unique_seq_to_set();
    lemma_layout_set();
    assert forall|s: Slot| a.to_set().contains(s) implies layout_set().contains(s) by {
        let j = choose|j: int| 0 <= j < a.len() && a[j] == s;
        assert(kl[0 + j].1@.contains(a[j]));
        let k = choose|k: int| 0 <= k < kl[j].1@.len() && kl[j].1@[k] == s;
        assert(layout_slot(kl[j].1@[k]));
    }
    vstd::set_lib::lemma_subset_equality(a.to_set(), layout_set());
    assert forall|s: Slot| #[trigger] m.dom().contains(s) implies exists|j: int|
        0 <= j < a.len() && a[j] == s && m[s] == kl[j].0 by {
        let j = choose|j: int| 0 <= j < a.len() && a[j] == s;
        assert(m[a[j]] == kl[0 + j].0);
    }
    assert forall|s: Slot| #[trigger] m.dom().contains(s) implies (m[s].base as int) < ASCII_CNT && (
    m[s].shift as int) < ASCII_CNT && has_entry(kl, m[s]) && valid_of(kl, m[s]).contains(s) by {
        let j = choose|j: int| 0 <= j < a.len() && a[j] == s && m[s] == kl[j].0;
        lemma_entry_index(kl, j);
        assert(kl[0 + j].1@.contains(a[j]));
    }
    assert forall|s1: Slot, s2: Slot|
        #[trigger] m.dom().contains(s1) && #[trigger] m.dom().contains(s2) && s1 != s2 implies !shares_char(
        m[s1],
        m[s2],
    ) by {
        let j1 = choose|j: int| 0 <= j < a.len() && a[j] == s1 && m[s1] == kl[j].0;
        let j2 = choose|j: int| 0 <= j < a.len() && a[j] == s2 && m[s2] == kl[j].0;
        assert(j1 != j2);
    }
}

impl Keyboard {
    /// The first layout: every key placed, by backtracking, in one of its
    /// valid slots, the keys with the fewest valid slots first.
    pub fn create_primo(id_in: usize) -> (kb: Self)
        ensures
            kb.shuffle_ready(),
            kb.all_valid(),
            is_stable_sort(spec_key_locs(), kb.spec_valid_slots()),
            kb.spec_layout() == apply_placement(
                Map::<Slot, Key>::empty(),
                kb.spec_valid_slots(),
                0,
                first_placement(Map::<Slot, Key>::empty(), kb.spec_valid_slots(), 0),
            ),
            kb.spec_id() == id_in,
            kb.spec_generation() == 0,
            !kb.spec_evaluated(),
            !kb.spec_is_elite(),
            kb.spec_pos_iter() == 0,
            kb.spec_score() == zero_score(),
            kb.spec_last_score() == zero_score(),
    {
        let mut key_slots = SlotMap::new();
        let valid_key_locs_sorted: Vec<(Key, Vec<Slot>)> = get_valid_key_locs_sorted();
        proof {
            lemma_sorted_key_locs(valid_key_locs_sorted@);
        }
        let placed = place_keys(&mut key_slots, &valid_key_locs_sorted, 0);
        assert(placed);
        proof {
            let a = choose|a: Seq<Slot>|
                #[trigger] is_placement(Map::<Slot, Key>::empty(), valid_key_locs_sorted@, 0, a)
                    && key_slots@ == apply_placement(
                    Map::<Slot, Key>::empty(),
                    valid_key_locs_sorted@,
                    0,
                    a,
                );
            lemma_full_placement(valid_key_locs_sorted@, a);
        }
        let slot_ascii = build_slot_ascii(&key_slots);
        let origin = Slot::from_tuple((0, 0));
        let blank = Key::from_tuple((0, 0));
        let kb = Self {
            key_slots,
            valid_slots: valid_key_locs_sorted,
            slot_ascii,
            last_slot_idx: None,
            prev_slot_idx: None,
            generation: 0,
            id: id_in,
            evaluated: false,
            score: Score { eff_sum: 0, left_uses: 0, right_uses: 0 },
            is_elite: false,
            pos_iter: 0,
            last_score: Score { eff_sum: 0, left_uses: 0, right_uses: 0 },
            last_swap_a: (origin, blank),
            last_swap_b: (origin, blank),
        };
        proof {
            lemma_layout_set();
            assert forall|s: Slot| layout_slot(s) implies #[trigger] kb.spec_layout().dom().contains(s) by {
                assert(layout_set().contains(s));
            }
        }
        kb
    }
}


/// The position of `key` among the entries.
pub fn find_entry(valid_slots: &Vec<(Key, Vec<Slot>)>, key: Key) -> (i: usize)
    requires
        has_entry(valid_slots@, key),
    ensures
        i < valid_slots@.len(),
        valid_slots@[i as int].0 == key,
{
    let mut i: usize = 0;
    while i < valid_slots.len()
        invariant
            i <= valid_slots@.len(),
            forall|k: int| 0 <= k < i ==> #[trigger] valid_slots@[k].0 != key,
            has_entry(valid_slots@, key),
        decreases valid_slots@.len() - i,
    {
        if valid_slots[i].0 == key {
            return i;
        }
        i = i + 1;
    }
    proof {
        let k = choose|k: int| 0 <= k < valid_slots@.len() && #[trigger] valid_slots@[k].0 == key;
        assert(valid_slots@[k].0 != key);
    }
    0
}


/// The layout with the keys of slots `a` and `b` exchanged.
pub open spec fn swapped(m: Map<Slot, Key>, a: Slot, b: Slot) -> Map<Slot, Key> {
    m.insert(a, m[b]).insert(b, m[a])
}

/// Two lists name the same slots, each as often.
pub open spec fn same_slots(v1: Seq<(Key, Vec<Slot>)>, v2: Seq<(Key, Vec<Slot>)>) -> bool {
    &&& v1.len() == v2.len()
    &&& forall|i: int|
        0 <= i < v1.len() ==> (#[trigger] v1[i]).0 == v2[i].0 && v1[i].1@.to_multiset()
            == v2[i].1@.to_multiset()
}

proof fn lemma_same_slots_valid_of(v1: Seq<(Key, Vec<Slot>)>, v2: Seq<(Key, Vec<Slot>)>, key: Key)
    requires
        same_slots(v1, v2),
        keys_distinct(v1),
        has_entry(v1, key),
    ensures
        keys_distinct(v2),
        has_entry(v2, key),
        forall|s: Slot| valid_of(v1, key).contains(s) == valid_of(v2, key).contains(s),
        valid_of(v1, key).len() == valid_of(v2, key).len(),
{
    broadcast use vstd::seq_lib::group_to_multiset_ensures;

    let i = entry_index(v1, key);
    assert(v1[i].0 == key);
    assert forall|x: int, y: int| 0 <= x < v2.len() && 0 <= y < v2.len() && x != y implies #[trigger] v2[x].0
        != #[trigger] v2[y].0 by {
        assert(v1[x].0 == v2[x].0 && v1[y].0 == v2[y].0);
    }
    assert(v2[i].0 == key);
    lemma_entry_index(v1, i);
    lemma_entry_index(v2, i);
    assert forall|s: Slot| valid_of(v1, key).contains(s) == valid_of(v2, key).contains(s) by {
        assert(v1[i].1@.to_multiset().count(s) == v2[i].1@.to_multiset().count(s));
    }
    assert(v1[i].1@.to_multiset().len() == v2[i].1@.to_multiset().len());
}

/// The layout `m` after the rounds of a shuffle: in round `r` the key of
/// slot `draws[r]` trades places with the key of slot `partners[r]`, or
/// stays where it is when `partners[r]` is `None`.
pub open spec fn rounds_layout(
    m: Map<Slot, Key>,
    draws: Seq<Slot>,
    partners: Seq<Option<Slot>>,
) -> Map<Slot, Key>
    decreases draws.len(),
{
    if draws.len() == 0 || partners.len() == 0 {
        m
    } else {
        let prev = rounds_layout(m, draws.drop_last(), partners.drop_last());
        match partners.last() {
            Some(b) => swapped(prev, draws.last(), b),
            None => prev,
        }
    }
}

/// Some key of `m` may trade places with the key of slot `a`.
pub open spec fn has_partner(valid_slots: Seq<(Key, Vec<Slot>)>, m: Map<Slot, Key>, a: Slot) -> bool {
    exists|b: Slot| #[trigger] m.dom().contains(b) && spec_shuffle_check(valid_slots, a, m[a], b, m[b])
}

/// Each round of a shuffle, made from `m`, drew a slot of the alpha area;
/// the drawn key traded places with a key it may trade with, and stayed
/// where it is only when its list names a single slot or no key may trade
/// with it.
pub open spec fn rounds_ok(
    valid_slots: Seq<(Key, Vec<Slot>)>,
    m: Map<Slot, Key>,
    draws: Seq<Slot>,
    partners: Seq<Option<Slot>>,
) -> bool
    decreases draws.len(),
{
    if draws.len() == 0 || partners.len() == 0 {
        true
    } else {
        let cur = rounds_layout(m, draws.drop_last(), partners.drop_last());
        let a = draws.last();
        &&& rounds_ok(valid_slots, m, draws.drop_last(), partners.drop_last())
        &&& alpha_slot(a)
        &&& cur.dom().contains(a)
        &&& match partners.last() {
            Some(b) => cur.dom().contains(b) && spec_shuffle_check(valid_slots, a, cur[a], b, cur[b]),
            None => valid_of(valid_slots, cur[a]).len() == 1 || !has_partner(valid_slots, cur, a),
        }
    }
}

/// In the sorted key list, a key with more than one valid slot only names
/// slots of the alpha area.
proof fn lemma_sorted_alpha(kl: Seq<(Key, Vec<Slot>)>, i: int, s: Slot)
    requires
        is_stable_sort(spec_key_locs(), kl),
        0 <= i < kl.len(),
        kl[i].1@.len() != 1,
        kl[i].1@.contains(s),
    ensures
        alpha_slot(s),
{
    let perm = choose|perm: Seq<int>| #[trigger] is_stable_sort_perm(spec_key_locs(), kl, perm);
    assert(kl[i].1@ == entry_slots(perm[i]) && 0 <= perm[i] < KEY_CNT);
    lemma_entry_slots_in_layout(perm[i], s);
}

/// Whether two keys may trade places depends only on which slots each key
/// may take, not on the order in which its list names them.
proof fn lemma_same_slots_shuffle_check(
    v1: Seq<(Key, Vec<Slot>)>,
    v2: Seq<(Key, Vec<Slot>)>,
    slot_a: Slot,
    key_a: Key,
    slot_b: Slot,
    key_b: Key,
)
    requires
        same_slots(v1, v2),
        keys_distinct(v1),
        has_entry(v1, key_a),
        has_entry(v1, key_b),
    ensures
        spec_shuffle_check(v1, slot_a, key_a, slot_b, key_b) == spec_shuffle_check(
            v2,
            slot_a,
            key_a,
            slot_b,
            key_b,
        ),
{
    lemma_same_slots_valid_of(v1, v2, key_a);
    lemma_same_slots_valid_of(v1, v2, key_b);
}

impl Keyboard {
    fn swap_keys(&mut self, slot_a: Slot, key_a: Key, slot_b: Slot, key_b: Key)
        requires
            old(self).wf(),
            old(self).spec_layout().dom().contains(slot_a),
            old(self).spec_layout().dom().contains(slot_b),
            old(self).spec_layout()[slot_a] == key_a,
            old(self).spec_layout()[slot_b] == key_b,
            slot_a != slot_b,
        ensures
            final(self).wf(),
            final(self).spec_layout() == swapped(old(self).spec_layout(), slot_a, slot_b),
            final(self).spec_last_swap() == ((slot_a, key_a), (slot_b, key_b)),
            final(self).spec_valid_slots() == old(self).spec_valid_slots(),
            final(self).spec_generation() == old(self).spec_generation(),
            final(self).spec_id() == old(self).spec_id(),
            final(self).spec_evaluated() == old(self).spec_evaluated(),
            final(self).spec_score() == old(self).spec_score(),
            final(self).spec_last_score() == old(self).spec_last_score(),
            final(self).spec_is_elite() == old(self).spec_is_elite(),
            final(self).spec_pos_iter() == old(self).spec_pos_iter(),
    {
        let ghost m = self.key_slots@;
        let ghost ascii = self.slot_ascii@;
        proof {
            // Keys in different slots share no character.
            assert(ascii[key_a.base as int] == Some(slot_a));
            assert(ascii[key_b.base as int] == Some(slot_b));
            assert(!shares_char(key_a, key_b));
            assert(!shares_char(key_b, key_a));
        }
        self.last_swap_a = (slot_a, key_a);
        self.last_swap_b = (slot_b, key_b);
        self.key_slots.insert(slot_a, key_b);
        self.slot_ascii[key_b.base as usize] = Some(slot_a);
        self.slot_ascii[key_b.shift as usize] = Some(slot_a);
        self.key_slots.insert(slot_b, key_a);
        self.slot_ascii[key_a.base as usize] = Some(slot_b);
        self.slot_ascii[key_a.shift as usize] = Some(slot_b);
        proof {
            let m2 = self.key_slots@;
            let a2 = self.slot_ascii@;
            assert(m2 == swapped(m, slot_a, slot_b));
            assert forall|c: int| 0 <= c < ASCII_CNT && #[trigger] a2[c] is Some implies m2.dom().contains(
                a2[c]->Some_0,
            ) && m2[a2[c]->Some_0].types(c as u8) by {
                if !key_a.types(c as u8) && !key_b.types(c as u8) {
                    assert(a2[c] == ascii[c]);
                    let s = ascii[c]->Some_0;
                    assert(m.dom().contains(s) && m[s].types(c as u8));
                    assert(s != slot_a && s != slot_b);
                }
            }
            assert forall|s: Slot| #[trigger] m2.dom().contains(s) implies (m2[s].base as int) < ASCII_CNT && (
            m2[s].shift as int) < ASCII_CNT && a2[m2[s].base as int] == Some(s) && a2[m2[s].shift as int]
                == Some(s) by {
                if s != slot_a && s != slot_b {
                    let k = m[s];
                    assert(ascii[k.base as int] == Some(s));
                    assert(ascii[k.shift as int] == Some(s));
                    assert(!key_a.types(k.base) && !key_a.types(k.shift));
                    assert(!key_b.types(k.base) && !key_b.types(k.shift));
                }
            }
        }
    }

    /// Moves keys around `cnt` times. Each time, a slot of the alpha area is
    /// picked at random; its key's list of valid slots is put in a random
    /// order, and the key trades places with the key of the first slot of that
    /// list with which a trade is allowed (see `shuffle_check`). A key whose
    /// list has a single slot stays where it is.
    pub fn shuffle(&mut self, rng: &mut SmallRng, cnt: usize)
        requires
            old(self).shuffle_ready(),
        ensures
            final(self).shuffle_ready(),
            final(self).spec_layout().values() == old(self).spec_layout().values(),
            old(self).all_valid() ==> final(self).all_valid(),
            exists|draws: Seq<Slot>, partners: Seq<Option<Slot>>|
                draws.len() == cnt && partners.len() == cnt && #[trigger] rounds_ok(
                    old(self).spec_valid_slots(),
                    old(self).spec_layout(),
                    draws,
                    partners,
                ) && rounds_layout(old(self).spec_layout(), draws, partners) == final(self).spec_layout(),
            is_stable_sort(spec_key_locs(), old(self).spec_valid_slots()) ==> forall|s: Slot|
                #[trigger] old(self).spec_layout().dom().contains(s) && !alpha_slot(s) ==> final(self).spec_layout()[s] == old(self).spec_layout()[s],
            same_slots(old(self).spec_valid_slots(), final(self).spec_valid_slots()),
            !final(self).spec_evaluated(),
            final(self).spec_generation() == old(self).spec_generation(),
            final(self).spec_id() == old(self).spec_id(),
            final(self).spec_score() == old(self).spec_score(),
            final(self).spec_last_score() == old(self).spec_last_score(),
            final(self).spec_is_elite() == old(self).spec_is_elite(),
            final(self).spec_pos_iter() == old(self).spec_pos_iter(),
    {
        self.evaluated = false;
        let ghost orig = *old(self);
        let ghost mut draws: Seq<Slot> = Seq::empty();
        let ghost mut partners: Seq<Option<Slot>> = Seq::empty();
        let mut n: usize = 0;
        while n < cnt
            invariant
                n <= cnt,
                self.shuffle_ready(),
                draws.len() == n,
                partners.len() == n,
                rounds_ok(orig.spec_valid_slots(), orig.spec_layout(), draws, partners),
                rounds_layout(orig.spec_layout(), draws, partners) == self.spec_layout(),
                is_stable_sort(spec_key_locs(), orig.spec_valid_slots()) ==> forall|s: Slot|
                    #[trigger] orig.spec_layout().dom().contains(s) && !alpha_slot(s)
                        ==> self.spec_layout()[s] == orig.spec_layout()[s],
                self.spec_layout().values() == orig.spec_layout().values(),
                orig.all_valid() ==> self.all_valid(),
                same_slots(orig.spec_valid_slots(), self.spec_valid_slots()),
                keys_distinct(orig.spec_valid_slots()),
                !self.evaluated,
                self.generation == orig.generation,
                self.id == orig.id,
                self.score == orig.score,
                self.last_score == orig.last_score,
                self.is_elite == orig.is_elite,
                self.pos_iter == orig.pos_iter,
            decreases cnt - n,
        {
            let row_a = random_range_inclusive(rng, TOP_ROW, BOT_ROW);
            let col_a = random_range_inclusive(rng, L_PINKY, R_PINKY);
            let slot_a = Slot::from_tuple((row_a, col_a));
            assert(layout_slot(slot_a));
            let key_a = self.key_slots.get(&slot_a).unwrap();
            let ia = find_entry(&self.valid_slots, key_a);
            let ghost before = *self;
            let ghost start = self.spec_layout();
            shuffle_slots(rng, &mut self.valid_slots[ia].1);
            proof {
                broadcast use vstd::seq_lib::group_to_multiset_ensures;

                assert(same_slots(before.spec_valid_slots(), self.spec_valid_slots()));
                assert(same_slots(orig.spec_valid_slots(), self.spec_valid_slots())) by {
                    assert forall|i: int| 0 <= i < orig.spec_valid_slots().len() implies (
                    #[trigger] orig.spec_valid_slots()[i]).0 == self.spec_valid_slots()[i].0
                        && orig.spec_valid_slots()[i].1@.to_multiset()
                        == self.spec_valid_slots()[i].1@.to_multiset() by {
                        assert(before.spec_valid_slots()[i].1@.to_multiset()
                            == self.spec_valid_slots()[i].1@.to_multiset());
                    }
                }
                assert forall|s: Slot| #[trigger] self.spec_layout().dom().contains(s) implies has_entry(
                    self.spec_valid_slots(),
                    self.spec_layout()[s],
                ) && (before.all_valid() ==> valid_of(self.spec_valid_slots(), self.spec_layout()[s]).contains(s)) by {
                    lemma_same_slots_valid_of(before.spec_valid_slots(), self.spec_valid_slots(), self.spec_layout()[s]);
                }
                assert forall|i: int, j: int|
                    0 <= i < self.spec_valid_slots().len() && 0 <= j < self.spec_valid_slots()[i].1@.len()
                        implies layout_slot(#[trigger] self.spec_valid_slots()[i].1@[j]) by {
                    let x = self.spec_valid_slots()[i].1@[j];
                    assert(self.spec_valid_slots()[i].1@.to_multiset().count(x) > 0);
                    assert(before.spec_valid_slots()[i].1@.contains(x));
                    let k = choose|k: int| 0 <= k < before.spec_valid_slots()[i].1@.len()
                        && before.spec_valid_slots()[i].1@[k] == x;
                    assert(layout_slot(before.spec_valid_slots()[i].1@[k]));
                }
                assert(keys_distinct(self.spec_valid_slots())) by {
                    lemma_same_slots_valid_of(before.spec_valid_slots(), self.spec_valid_slots(), key_a);
                }
            }
            let ghost vsr = self.spec_valid_slots();
            proof {
                lemma_entry_index(vsr, ia as int);
                assert(same_slots(vsr, orig.spec_valid_slots()));
                lemma_same_slots_valid_of(vsr, orig.spec_valid_slots(), key_a);
                assert(alpha_slot(slot_a));
            }
            let len = self.valid_slots[ia].1.len();
            if len != 1 {
                let mut k: usize = 0;
                let mut done = false;
                let ghost mut found: Slot = slot_a;
                while k < len && !done
                    invariant
                        n < cnt,
                        self.shuffle_ready(),
                        draws.len() == n,
                        partners.len() == n,
                        rounds_ok(orig.spec_valid_slots(), orig.spec_layout(), draws, partners),
                        rounds_layout(orig.spec_layout(), draws, partners) == start,
                        start.dom().contains(slot_a),
                        start[slot_a] == key_a,
                        alpha_slot(slot_a),
                        self.spec_valid_slots() == vsr,
                        ia < vsr.len(),
                        len == vsr[ia as int].1@.len(),
                        len != 1,
                        same_slots(vsr, orig.spec_valid_slots()),
                        keys_distinct(vsr),
                        valid_of(vsr, key_a) == vsr[ia as int].1@,
                        forall|s: Slot| #[trigger] start.dom().contains(s) ==> has_entry(vsr, start[s]),
                        is_stable_sort(spec_key_locs(), orig.spec_valid_slots()) ==> forall|s: Slot|
                            #[trigger] orig.spec_layout().dom().contains(s) && !alpha_slot(s)
                                ==> start[s] == orig.spec_layout()[s],
                        !done ==> self.spec_layout() == start,
                        !done ==> forall|t: int|
                            0 <= t < k ==> !spec_shuffle_check(
                                vsr,
                                slot_a,
                                key_a,
                                #[trigger] vsr[ia as int].1@[t],
                                start[vsr[ia as int].1@[t]],
                            ),
                        done ==> self.spec_layout() == swapped(start, slot_a, found) && start.dom().contains(found)
                            && spec_shuffle_check(orig.spec_valid_slots(), slot_a, start[slot_a], found, start[found])
                            && (is_stable_sort(spec_key_locs(), orig.spec_valid_slots()) ==> alpha_slot(found)),
                        self.spec_layout().values() == orig.spec_layout().values(),
                        orig.all_valid() ==> self.all_valid(),
                        same_slots(orig.spec_valid_slots(), self.spec_valid_slots()),
                        keys_distinct(orig.spec_valid_slots()),
                        ia < self.spec_valid_slots().len(),
                        len == self.spec_valid_slots()[ia as int].1@.len(),
                        self.spec_valid_slots()[ia as int].0 == key_a,
                        !done ==> self.spec_layout()[slot_a] == key_a,
                        layout_slot(slot_a),
                        !self.evaluated,
                        self.generation == orig.generation,
                        self.id == orig.id,
                        self.score == orig.score,
                        self.last_score == orig.last_score,
                        self.is_elite == orig.is_elite,
                        self.pos_iter == orig.pos_iter,
                    decreases len - k,
                {
                    let slot_b = self.valid_slots[ia].1[k];
                    assert(layout_slot(self.spec_valid_slots()[ia as int].1@[k as int]));
                    let key_b = self.key_slots.get(&slot_b).unwrap();
                    proof {
                        lemma_entry_index(self.spec_valid_slots(), ia as int);
                    }
                    if shuffle_check(&self.valid_slots, slot_a, key_a, slot_b, key_b) {
                        let ghost pre = *self;
                        proof {
                            // Different keys sit in different slots.
                            assert(slot_a != slot_b);
                        }
                        self.swap_keys(slot_a, key_a, slot_b, key_b);
                        proof {
                            let m0 = pre.spec_layout();
                            let m1 = self.spec_layout();
                            assert(same_slots(pre.spec_valid_slots(), orig.spec_valid_slots()));
                            lemma_same_slots_shuffle_check(
                                pre.spec_valid_slots(),
                                orig.spec_valid_slots(),
                                slot_a,
                                key_a,
                                slot_b,
                                key_b,
                            );
                            if is_stable_sort(spec_key_locs(), orig.spec_valid_slots()) {
                                broadcast use vstd::seq_lib::group_to_multiset_ensures;

                                assert(vsr[ia as int].1@.contains(slot_b));
                                assert(orig.spec_valid_slots()[ia as int].1@.to_multiset()
                                    == vsr[ia as int].1@.to_multiset());
                                assert(vsr[ia as int].1@.to_multiset().count(slot_b) > 0);
                                assert(orig.spec_valid_slots()[ia as int].1@.contains(slot_b));
                                lemma_entry_index(orig.spec_valid_slots(), ia as int);
                                lemma_same_slots_valid_of(vsr, orig.spec_valid_slots(), key_a);
                                assert(orig.spec_valid_slots()[ia as int].1@.len() == vsr[ia as int].1@.len());
                                lemma_sorted_alpha(orig.spec_valid_slots(), ia as int, slot_b);
                            }
                            found = slot_b;
                            assert(m1.dom() =~= m0.dom());
                            assert(m1.values() =~= m0.values()) by {
                                assert forall|k: Key| m0.values().contains(k) implies m1.values().contains(k) by {
                                    let s = choose|s: Slot| m0.dom().contains(s) && m0[s] == k;
                                    if s == slot_a {
                                        assert(m1.dom().contains(slot_b) && m1[slot_b] == k);
                                    } else if s == slot_b {
                                        assert(m1.dom().contains(slot_a) && m1[slot_a] == k);
                                    } else {
                                        assert(m1.dom().contains(s) && m1[s] == k);
                                    }
                                }
                                assert forall|k: Key| m1.values().contains(k) implies m0.values().contains(k) by {
                                    let s = choose|s: Slot| m1.dom().contains(s) && m1[s] == k;
                                    if s == slot_a {
                                        assert(m0.dom().contains(slot_b) && m0[slot_b] == k);
                                    } else if s == slot_b {
                                        assert(m0.dom().contains(slot_a) && m0[slot_a] == k);
                                    } else {
                                        assert(m0.dom().contains(s) && m0[s] == k);
                                    }
                                }
                            }
                            assert forall|s: Slot| #[trigger] m1.dom().contains(s) implies has_entry(
                                self.spec_valid_slots(),
                                m1[s],
                            ) && (orig.all_valid() ==> valid_of(self.spec_valid_slots(), m1[s]).contains(s)) by {
                                if s != slot_a && s != slot_b {
                                    assert(m1[s] == m0[s]);
                                }
                            }
                        }
                        done = true;
                    }
                    k = k + 1;
                }
                proof {
                    let d2 = draws.push(slot_a);
                    if done {
                        let p2 = partners.push(Some(found));
                        assert(d2.drop_last() =~= draws && p2.drop_last() =~= partners);
                        assert(rounds_layout(orig.spec_layout(), d2, p2) == self.spec_layout());
                        assert(rounds_ok(orig.spec_valid_slots(), orig.spec_layout(), d2, p2));
                        partners = p2;
                    } else {
                        let p2 = partners.push(None);
                        assert(d2.drop_last() =~= draws && p2.drop_last() =~= partners);
                        assert forall|b: Slot| #[trigger] start.dom().contains(b) implies !spec_shuffle_check(
                            orig.spec_valid_slots(),
                            slot_a,
                            start[slot_a],
                            b,
                            start[b],
                        ) by {
                            lemma_same_slots_shuffle_check(vsr, orig.spec_valid_slots(), slot_a, key_a, b, start[b]);
                            if spec_shuffle_check(vsr, slot_a, key_a, b, start[b]) {
                                let t = choose|t: int| 0 <= t < vsr[ia as int].1@.len() && vsr[ia as int].1@[t] == b;
                                assert(!spec_shuffle_check(vsr, slot_a, key_a, vsr[ia as int].1@[t], start[vsr[ia as int].1@[t]]));
                            }
                        }
                        assert(!has_partner(orig.spec_valid_slots(), start, slot_a));
                        assert(rounds_layout(orig.spec_layout(), d2, p2) == self.spec_layout());
                        assert(rounds_ok(orig.spec_valid_slots(), orig.spec_layout(), d2, p2));
                        partners = p2;
                    }
                    draws = d2;
                }
            } else {
                proof {
                    let d2 = draws.push(slot_a);
                    let p2 = partners.push(None);
                    assert(d2.drop_last() =~= draws && p2.drop_last() =~= partners);
                    assert(valid_of(orig.spec_valid_slots(), key_a).len() == 1);
                    assert(rounds_layout(orig.spec_layout(), d2, p2) == self.spec_layout());
                    assert(rounds_ok(orig.spec_valid_slots(), orig.spec_layout(), d2, p2));
                    partners = p2;
                    draws = d2;
                }
            }
            n = n + 1;
        }
    }
}


/// Exchanging the keys of the same two slots twice gives back the layout.
pub proof fn lemma_swap_undo(m: Map<Slot, Key>, a: Slot, b: Slot)
    requires
        m.dom().contains(a),
        m.dom().contains(b),
    ensures
        swapped(swapped(m, a, b), a, b) == m,
{
    assert(swapped(swapped(m, a, b), a, b) =~= m);
}

/// The ASCII table of a keyboard is fixed by its layout: two tables
/// consistent with the same layout are equal.
pub proof fn lemma_ascii_determined(m: Map<Slot, Key>, ascii1: Seq<Option<Slot>>, ascii2: Seq<Option<Slot>>)
    requires
        ascii_consistent(m, ascii1),
        ascii_consistent(m, ascii2),
    ensures
        ascii1 == ascii2,
{
    assert forall|c: int| 0 <= c < ASCII_CNT implies ascii1[c] == ascii2[c] by {
        if ascii1[c] is Some {
            let s = ascii1[c]->Some_0;
            let k = m[s];
            if k.base == c as u8 {
                assert(ascii2[k.base as int] == Some(s));
            } else {
                assert(ascii2[k.shift as int] == Some(s));
            }
        } else if ascii2[c] is Some {
            let s = ascii2[c]->Some_0;
            let k = m[s];
            if k.base == c as u8 {
                assert(ascii1[k.base as int] == Some(s));
            } else {
                assert(ascii1[k.shift as int] == Some(s));
            }
        }
    }
    assert(ascii1 =~= ascii2);
}

// ---------------------------------------------------------------------------
// Evaluation
// ---------------------------------------------------------------------------

/// The largest efficiency of a single key, in units of 10^-8.
pub const MAX_EFF: u64 = 120_000_000;

/// The slot that types byte `b`, if any key does.
pub open spec fn byte_slot(ascii: Seq<Option<Slot>>, b: u8) -> Option<Slot> {
    if (b as int) < ascii.len() {
        ascii[b as int]
    } else {
        None
    }
}

/// The efficiency of typing the key in `this_slot`, in units of 10^-8, given
/// the slots of the two keys typed before it. The factor for a same-hand
/// bigram wins; failing that the factor for a same-hand skipgram; failing
/// that the factor for a key typed on its own.
pub open spec fn spec_efficiency(this_slot: Slot, last: Option<Slot>, prev: Option<Slot>) -> nat {
    let g = spec_global_adjustments(this_slot) as nat;
    if last is Some && spec_compare_slots(this_slot, last->Some_0, true) is Mult {
        g * (spec_compare_slots(this_slot, last->Some_0, true)->Mult_0 as nat)
    } else if prev is Some && spec_compare_slots(this_slot, prev->Some_0, false) is Mult {
        g * (spec_compare_slots(this_slot, prev->Some_0, false)->Mult_0 as nat)
    } else {
        g * (spec_check_key_no_hist(this_slot) as nat) * 100_000
    }
}

/// The running state of an evaluation: the efficiency sum, the left and
/// right hand counts, and the slots of the last two keys (`None` after a
/// character that no key types).
pub type EvalState = (nat, nat, nat, Option<Slot>, Option<Slot>);

pub open spec fn eval_step(ascii: Seq<Option<Slot>>) -> spec_fn(EvalState, u8) -> EvalState {
    |st: EvalState, b: u8|
        match byte_slot(ascii, b) {
            None => (st.0, st.1, st.2, None, st.3),
            Some(s) => {
                let left = spec_hand(s.col) == Hand::Left;
                (
                    st.0 + spec_efficiency(s, st.3, st.4),
                    if left { st.1 + 1 } else { st.1 },
                    if left { st.2 } else { st.2 + 1 },
                    Some(s),
                    st.3,
                )
            },
        }
}

pub open spec fn initial_eval_state() -> EvalState {
    (0, 0, 0, None, None)
}

/// The evaluation of a byte sequence with a given ASCII table.
pub open spec fn spec_eval_bytes(ascii: Seq<Option<Slot>>, bytes: Seq<u8>) -> EvalState {
    bytes.fold_left(initial_eval_state(), eval_step(ascii))
}

/// The bytes of a text.
pub open spec fn text_bytes(s: String) -> Seq<u8> {
    vstd::utf8::encode_utf8(s@)
}

/// The bytes of all corpus entries, one entry after the other.
pub open spec fn corpus_bytes(corpus: Seq<String>) -> Seq<u8> {
    corpus.map_values(|s: String| text_bytes(s)).flatten()
}

pub open spec fn score_of(st: EvalState) -> (nat, nat, nat) {
    (st.0, st.1, st.2)
}

pub open spec fn score_view(score: Score) -> (nat, nat, nat) {
    (score.eff_sum as nat, score.left_uses as nat, score.right_uses as nat)
}

proof fn lemma_eval_bound(ascii: Seq<Option<Slot>>, bytes: Seq<u8>)
    requires
        forall|c: int| 0 <= c < ascii.len() && #[trigger] ascii[c] is Some ==> ascii[c]->Some_0.on_hand(),
    ensures
        spec_eval_bytes(ascii, bytes).1 + spec_eval_bytes(ascii, bytes).2 <= bytes.len(),
        spec_eval_bytes(ascii, bytes).0 <= (spec_eval_bytes(ascii, bytes).1 + spec_eval_bytes(
            ascii,
            bytes,
        ).2) * MAX_EFF,
        spec_eval_bytes(ascii, bytes).3 is Some ==> spec_eval_bytes(ascii, bytes).3->Some_0.on_hand(),
        spec_eval_bytes(ascii, bytes).4 is Some ==> spec_eval_bytes(ascii, bytes).4->Some_0.on_hand(),
    decreases bytes.len(),
{
    if bytes.len() > 0 {
        lemma_eval_bound(ascii, bytes.drop_last());
        let st = spec_eval_bytes(ascii, bytes.drop_last());
        match byte_slot(ascii, bytes.last()) {
            None => {},
            Some(s) => {
                lemma_efficiency_bound(s, st.3, st.4);
            },
        }
    }
}

proof fn lemma_efficiency_bound(this_slot: Slot, last: Option<Slot>, prev: Option<Slot>)
    requires
        this_slot.on_hand(),
        last is Some ==> last->Some_0.on_hand(),
        prev is Some ==> prev->Some_0.on_hand(),
    ensures
        spec_efficiency(this_slot, last, prev) <= MAX_EFF,
{
    let g = spec_global_adjustments(this_slot) as nat;
    assert(g <= 10);
    if last is Some && spec_compare_slots(this_slot, last->Some_0, true) is Mult {
        lemma_compare_slots_bound(this_slot, last->Some_0, true);
        let x = spec_compare_slots(this_slot, last->Some_0, true)->Mult_0 as nat;
        assert(g * x <= MAX_EFF) by (nonlinear_arith)
            requires
                g <= 10,
                x <= 12_000_000,
        ;
    } else if prev is Some && spec_compare_slots(this_slot, prev->Some_0, false) is Mult {
        lemma_compare_slots_bound(this_slot, prev->Some_0, false);
        let x = spec_compare_slots(this_slot, prev->Some_0, false)->Mult_0 as nat;
        assert(g * x <= MAX_EFF) by (nonlinear_arith)
            requires
                g <= 10,
                x <= 12_000_000,
        ;
    } else {
        let h = spec_check_key_no_hist(this_slot) as nat;
        crate::eval_funcs::lemma_key_no_hist_bound(this_slot);
        assert(g * h * 100_000 <= MAX_EFF) by (nonlinear_arith)
            requires
                g <= 10,
                h <= 100,
        ;
    }
}

/// Appending one corpus entry appends its bytes.
proof fn lemma_corpus_bytes_push(corpus: Seq<String>, i: int)
    requires
        0 <= i < corpus.len(),
    ensures
        corpus_bytes(corpus.take(i + 1)) == corpus_bytes(corpus.take(i)) + text_bytes(corpus[i]),
{
    let f = |s: String| text_bytes(s);
    assert(corpus.take(i + 1).map_values(f) =~= corpus.take(i).map_values(f).push(text_bytes(corpus[i])));
    corpus.take(i).map_values(f).lemma_flatten_push(text_bytes(corpus[i]));
}

/// The bytes of the first `i` entries are no more than the bytes of all.
proof fn lemma_corpus_bytes_prefix_len(corpus: Seq<String>, i: int)
    requires
        0 <= i <= corpus.len(),
    ensures
        corpus_bytes(corpus.take(i)).len() <= corpus_bytes(corpus).len(),
    decreases corpus.len() - i,
{
    if i < corpus.len() {
        lemma_corpus_bytes_push(corpus, i);
        lemma_corpus_bytes_prefix_len(corpus, i + 1);
    } else {
        assert(corpus.take(i) =~= corpus);
    }
}

/// Evaluating one more byte is one more step.
proof fn lemma_eval_push(ascii: Seq<Option<Slot>>, bytes: Seq<u8>, b: u8)
    ensures
        spec_eval_bytes(ascii, bytes.push(b)) == (eval_step(ascii))(spec_eval_bytes(ascii, bytes), b),
{
    assert(bytes.push(b).drop_last() =~= bytes);
}

impl Keyboard {
    /// The running evaluation state held in the keyboard.
    closed spec fn eval_state(&self) -> EvalState {
        (
            self.score.eff_sum as nat,
            self.score.left_uses as nat,
            self.score.right_uses as nat,
            self.last_slot_idx,
            self.prev_slot_idx,
        )
    }

    /// The efficiency of typing the key in `this_slot` after the keys of the
    /// last two slots, counting the use of its hand.
    fn get_efficiency(&mut self, this_slot: Slot) -> (eff: u64)
        requires
            this_slot.on_hand(),
            old(self).last_slot_idx is Some ==> old(self).last_slot_idx->Some_0.on_hand(),
            old(self).prev_slot_idx is Some ==> old(self).prev_slot_idx->Some_0.on_hand(),
            old(self).score.left_uses < u64::MAX,
            old(self).score.right_uses < u64::MAX,
        ensures
            eff == spec_efficiency(this_slot, old(self).last_slot_idx, old(self).prev_slot_idx),
            eff <= MAX_EFF,
            final(self).score.eff_sum == old(self).score.eff_sum,
            spec_hand(this_slot.col) == Hand::Left ==> final(self).score.left_uses
                == old(self).score.left_uses + 1 && final(self).score.right_uses
                == old(self).score.right_uses,
            spec_hand(this_slot.col) == Hand::Right ==> final(self).score.right_uses
                == old(self).score.right_uses + 1 && final(self).score.left_uses
                == old(self).score.left_uses,
            final(self).last_slot_idx == old(self).last_slot_idx,
            final(self).prev_slot_idx == old(self).prev_slot_idx,
            final(self).key_slots == old(self).key_slots,
            final(self).slot_ascii == old(self).slot_ascii,
            final(self).valid_slots == old(self).valid_slots,
            final(self).generation == old(self).generation,
            final(self).id == old(self).id,
            final(self).evaluated == old(self).evaluated,
            final(self).is_elite == old(self).is_elite,
            final(self).pos_iter == old(self).pos_iter,
            final(self).last_score == old(self).last_score,
            final(self).last_swap_a == old(self).last_swap_a,
            final(self).last_swap_b == old(self).last_swap_b,
    {
        proof {
            lemma_efficiency_bound(this_slot, self.last_slot_idx, self.prev_slot_idx);
        }
        let g = global_adjustments(this_slot);
        if Hand::from_slot(this_slot) == Hand::Right {
            self.score.right_uses = self.score.right_uses + 1;
        } else {
            self.score.left_uses = self.score.left_uses + 1;
        }
        if let Some(last_slot) = self.last_slot_idx {
            match compare_slots(this_slot, last_slot, true) {
                KeyCompare::Mult(x) => {
                    proof {
                        lemma_compare_slots_bound(this_slot, last_slot, true);
                    }
                    assert(g * x <= MAX_EFF) by (nonlinear_arith)
                        requires
                            g <= 10,
                            x <= 12_000_000,
                    ;
                    return g * x;
                },
                KeyCompare::Mismatch => {},
            }
        }
        if let Some(prev_slot) = self.prev_slot_idx {
            match compare_slots(this_slot, prev_slot, false) {
                KeyCompare::Mult(x) => {
                    proof {
                        lemma_compare_slots_bound(this_slot, prev_slot, false);
                    }
                    assert(g * x <= MAX_EFF) by (nonlinear_arith)
                        requires
                            g <= 10,
                            x <= 12_000_000,
                    ;
                    return g * x;
                },
                KeyCompare::Mismatch => {},
            }
        }
        let h = check_key_no_hist(this_slot);
        proof {
            crate::eval_funcs::lemma_key_no_hist_bound(this_slot);
        }
        assert(g * h * 100_000 <= MAX_EFF && g * h <= 1000) by (nonlinear_arith)
            requires
                g <= 10,
                h <= 100,
        ;
        g * h * 100_000
    }

    /// Scores the layout on the corpus: each byte that a key types adds the
    /// efficiency of that key given the two keys typed before it, and counts
    /// a use of its hand; a byte that no key types breaks the history. An
    /// evaluated keyboard keeps its score until its layout changes.
    pub fn eval(&mut self, corpus: &Vec<String>)
        requires
            old(self).wf(),
            !old(self).spec_evaluated() ==> corpus_bytes(corpus@).len() <= u64::MAX,
        ensures
            final(self).wf(),
            final(self).spec_evaluated(),
            old(self).spec_evaluated() ==> final(self).spec_score() == old(self).spec_score(),
            !old(self).spec_evaluated() ==> score_view(final(self).spec_score()) == score_of(
                spec_eval_bytes(old(self).spec_ascii(), corpus_bytes(corpus@)),
            ),
            final(self).spec_layout() == old(self).spec_layout(),
            final(self).spec_ascii() == old(self).spec_ascii(),
            final(self).spec_valid_slots() == old(self).spec_valid_slots(),
            final(self).spec_generation() == old(self).spec_generation(),
            final(self).spec_id() == old(self).spec_id(),
            final(self).spec_is_elite() == old(self).spec_is_elite(),
            final(self).spec_pos_iter() == old(self).spec_pos_iter(),
            final(self).spec_last_score() == old(self).spec_last_score(),
            final(self).spec_last_swap() == old(self).spec_last_swap(),
    {
        if self.evaluated {
            return;
        }
        self.score = Score { eff_sum: 0, left_uses: 0, right_uses: 0 };
        self.last_slot_idx = None;
        self.prev_slot_idx = None;
        let ghost ascii = self.slot_ascii@;
        let ghost layout = self.key_slots@;
        assert(forall|c: int| 0 <= c < ascii.len() && #[trigger] ascii[c] is Some ==> ascii[c]->Some_0.on_hand());
        assert(corpus@.take(0) =~= Seq::<String>::empty());
        assert(corpus_bytes(corpus@.take(0)) =~= Seq::<u8>::empty());
        let mut i: usize = 0;
        while i < corpus.len()
            invariant
                0 <= i <= corpus.len(),
                self.wf(),
                self.slot_ascii@ == ascii,
                self.key_slots@ == layout,
                !self.evaluated,
                forall|c: int| 0 <= c < ascii.len() && #[trigger] ascii[c] is Some ==> ascii[c]->Some_0.on_hand(),
                corpus_bytes(corpus@).len() <= u64::MAX,
                self.eval_state() == spec_eval_bytes(ascii, corpus_bytes(corpus@.take(i as int))),
                self.valid_slots == old(self).valid_slots,
                self.key_slots == old(self).key_slots,
                self.slot_ascii == old(self).slot_ascii,
                self.generation == old(self).generation,
                self.id == old(self).id,
                self.is_elite == old(self).is_elite,
                self.pos_iter == old(self).pos_iter,
                self.last_score == old(self).last_score,
                self.last_swap_a == old(self).last_swap_a,
                self.last_swap_b == old(self).last_swap_b,
            decreases corpus.len() - i,
        {
            let bytes: &[u8] = corpus[i].as_str().as_bytes();
            let ghost prefix = corpus_bytes(corpus@.take(i as int));
            proof {
                lemma_corpus_bytes_push(corpus@, i as int);
                lemma_corpus_bytes_prefix_len(corpus@, i as int + 1);
                assert(bytes@ == text_bytes(corpus@[i as int]));
                assert(prefix + bytes@.take(0) =~= prefix);
            }
            let mut j: usize = 0;
            while j < bytes.len()
                invariant
                    0 <= j <= bytes.len(),
                    i < corpus.len(),
                    self.wf(),
                    self.slot_ascii@ == ascii,
                    self.key_slots@ == layout,
                    !self.evaluated,
                    forall|c: int| 0 <= c < ascii.len() && #[trigger] ascii[c] is Some ==> ascii[c]->Some_0.on_hand(),
                    (prefix + bytes@).len() <= u64::MAX,
                    self.eval_state() == spec_eval_bytes(ascii, prefix + bytes@.take(j as int)),
                    self.valid_slots == old(self).valid_slots,
                    self.key_slots == old(self).key_slots,
                    self.slot_ascii == old(self).slot_ascii,
                    self.generation == old(self).generation,
                    self.id == old(self).id,
                    self.is_elite == old(self).is_elite,
                    self.pos_iter == old(self).pos_iter,
                    self.last_score == old(self).last_score,
                    self.last_swap_a == old(self).last_swap_a,
                    self.last_swap_b == old(self).last_swap_b,
                decreases bytes.len() - j,
            {
                let b: u8 = bytes[j];
                let ghost seen = prefix + bytes@.take(j as int);
                proof {
                    assert(prefix + bytes@.take(j as int + 1) =~= seen.push(b));
                    lemma_eval_push(ascii, seen, b);
                    lemma_eval_bound(ascii, seen);
                }
                let looked_up: Option<Slot> = if (b as usize) < self.slot_ascii.len() {
                    self.slot_ascii[b as usize]
                } else {
                    None
                };
                match looked_up {
                    None => {
                        self.prev_slot_idx = self.last_slot_idx;
                        self.last_slot_idx = None;
                    },
                    Some(this_slot) => {
                        assert(ascii[b as int] == Some(this_slot));
                        let eff = self.get_efficiency(this_slot);
                        assert(self.score.eff_sum + eff <= u128::MAX) by (nonlinear_arith)
                            requires
                                self.score.eff_sum <= u64::MAX * MAX_EFF,
                                eff <= MAX_EFF,
                        ;
                        self.score.eff_sum = self.score.eff_sum + eff as u128;
                        self.prev_slot_idx = self.last_slot_idx;
                        self.last_slot_idx = Some(this_slot);
                    },
                }
                j = j + 1;
            }
            proof {
                assert(bytes@.take(bytes@.len() as int) =~= bytes@);
            }
            i = i + 1;
        }
        proof {
            assert(corpus@.take(corpus@.len() as int) =~= corpus@);
        }
        self.evaluated = true;
    }
}

/// A copy of a vector of plain values.
pub(crate) fn copy_vec<T: Copy>(v: &Vec<T>) -> (r: Vec<T>)
    ensures
        r@ == v@,
{
    let mut r: Vec<T> = Vec::new();
    let mut i: usize = 0;
    while i < v.len()
        invariant
            i <= v.len(),
            r@ == v@.take(i as int),
        decreases v.len() - i,
    {
        r.push(v[i]);
        i = i + 1;
        assert(r@ =~= v@.take(i as int));
    }
    assert(v@.take(v@.len() as int) =~= v@);
    r
}

impl Clone for SlotMap {
    fn clone(&self) -> (r: Self)
        ensures
            r.wf() == self.wf(),
            r@ == self@,
    {
        let r = SlotMap { table: copy_vec(&self.table) };
        assert(r@ =~= self@);
        r
    }
}

/// A copy of the valid slots of each key.
fn copy_valid_slots(v: &Vec<(Key, Vec<Slot>)>) -> (r: Vec<(Key, Vec<Slot>)>)
    ensures
        r@.len() == v@.len(),
        forall|i: int| 0 <= i < v@.len() ==> (#[trigger] r@[i]).0 == v@[i].0 && r@[i].1@ == v@[i].1@,
{
    let mut r: Vec<(Key, Vec<Slot>)> = Vec::new();
    let mut i: usize = 0;
    while i < v.len()
        invariant
            i <= v.len(),
            r@.len() == i,
            forall|k: int| 0 <= k < i ==> (#[trigger] r@[k]).0 == v@[k].0 && r@[k].1@ == v@[k].1@,
        decreases v.len() - i,
    {
        let key = v[i].0;
        let slots = copy_vec(&v[i].1);
        r.push((key, slots));
        i = i + 1;
    }
    r
}

/// Two lists of valid slots name the same keys with the same slots.
pub open spec fn same_entries(v1: Seq<(Key, Vec<Slot>)>, v2: Seq<(Key, Vec<Slot>)>) -> bool {
    &&& v1.len() == v2.len()
    &&& forall|i: int| 0 <= i < v1.len() ==> (#[trigger] v1[i]).0 == v2[i].0 && v1[i].1@ == v2[i].1@
}

impl Clone for Keyboard {
    fn clone(&self) -> (r: Self)
        ensures
            r.map_wf() == self.map_wf(),
            r.spec_layout() == self.spec_layout(),
            r.spec_ascii() == self.spec_ascii(),
            same_entries(r.spec_valid_slots(), self.spec_valid_slots()),
            r.spec_generation() == self.spec_generation(),
            r.spec_id() == self.spec_id(),
            r.spec_evaluated() == self.spec_evaluated(),
            r.spec_score() == self.spec_score(),
            r.spec_is_elite() == self.spec_is_elite(),
            r.spec_pos_iter() == self.spec_pos_iter(),
            r.spec_last_score() == self.spec_last_score(),
            r.spec_last_swap() == self.spec_last_swap(),
    {
        Keyboard {
            key_slots: self.key_slots.clone(),
            valid_slots: copy_valid_slots(&self.valid_slots),
            slot_ascii: copy_vec(&self.slot_ascii),
            last_slot_idx: self.last_slot_idx,
            prev_slot_idx: self.prev_slot_idx,
            generation: self.generation,
            id: self.id,
            evaluated: self.evaluated,
            score: self.score,
            is_elite: self.is_elite,
            pos_iter: self.pos_iter,
            last_score: self.last_score,
            last_swap_a: self.last_swap_a,
            last_swap_b: self.last_swap_b,
        }
    }
}

/// The base characters of the keys of one row, in column order, looking at
/// the first `n` columns.
pub open spec fn row_chars(layout: Map<Slot, Key>, row: usize, n: nat) -> Seq<char>
    decreases n,
{
    if n == 0 {
        Seq::empty()
    } else {
        let prev = row_chars(layout, row, (n - 1) as nat);
        let s = Slot { row, col: (n - 1) as usize };
        if layout.dom().contains(s) {
            prev.push(layout[s].base as char)
        } else {
            prev
        }
    }
}

impl Keyboard {
    /// The base character of each key, one vector per row from the number
    /// row down, each in column order.
    pub fn get_display_chars(&self) -> (rows: Vec<Vec<char>>)
        requires
            self.wf(),
        ensures
            rows@.len() == 4,
            forall|r: int| 0 <= r < 4 ==> (#[trigger] rows@[r])@ == row_chars(
                self.spec_layout(),
                r as usize,
                TABLE_COLS as nat,
            ),
    {
        let mut rows: Vec<Vec<char>> = Vec::new();
        let mut r: usize = 0;
        while r < 4
            invariant
                r <= 4,
                self.wf(),
                rows@.len() == r,
                forall|k: int| 0 <= k < r ==> (#[trigger] rows@[k])@ == row_chars(
                    self.spec_layout(),
                    k as usize,
                    TABLE_COLS as nat,
                ),
            decreases 4 - r,
        {
            let mut chars: Vec<char> = Vec::new();
            let mut c: usize = 0;
            while c < TABLE_COLS
                invariant
                    c <= TABLE_COLS,
                    r < 4,
                    self.wf(),
                    chars@ == row_chars(self.spec_layout(), r, c as nat),
                decreases TABLE_COLS - c,
            {
                match self.key_slots.get(&Slot { row: r, col: c }) {
                    Some(key) => {
                        chars.push(key.base as char);
                    },
                    None => {},
                }
                c = c + 1;
            }
            rows.push(chars);
            r = r + 1;
        }
        rows
    }

    /// The score of the last evaluation.
    pub fn get_score(&self) -> (score: Score)
        ensures
            score == self.spec_score(),
    {
        self.score
    }

    pub fn get_generation(&self) -> (generation: usize)
        ensures
            generation == self.spec_generation(),
    {
        self.generation
    }

    pub fn get_id(&self) -> (id: usize)
        ensures
            id == self.spec_id(),
    {
        self.id
    }

    pub fn is_elite(&self) -> (elite: bool)
        ensures
            elite == self.spec_is_elite(),
    {
        self.is_elite
    }

    pub fn set_elite(&mut self)
        ensures
            final(self).spec_is_elite(),
            final(self).spec_layout() == old(self).spec_layout(),
            final(self).spec_ascii() == old(self).spec_ascii(),
            final(self).spec_valid_slots() == old(self).spec_valid_slots(),
            final(self).spec_generation() == old(self).spec_generation(),
            final(self).spec_id() == old(self).spec_id(),
            final(self).spec_evaluated() == old(self).spec_evaluated(),
            final(self).spec_score() == old(self).spec_score(),
            final(self).spec_pos_iter() == old(self).spec_pos_iter(),
            final(self).spec_last_score() == old(self).spec_last_score(),
            final(self).spec_last_swap() == old(self).spec_last_swap(),
            final(self).map_wf() == old(self).map_wf(),
    {
        self.is_elite = true;
    }

    pub fn unset_elite(&mut self)
        ensures
            !final(self).spec_is_elite(),
            final(self).spec_layout() == old(self).spec_layout(),
            final(self).spec_ascii() == old(self).spec_ascii(),
            final(self).spec_valid_slots() == old(self).spec_valid_slots(),
            final(self).spec_generation() == old(self).spec_generation(),
            final(self).spec_id() == old(self).spec_id(),
            final(self).spec_evaluated() == old(self).spec_evaluated(),
            final(self).spec_score() == old(self).spec_score(),
            final(self).spec_pos_iter() == old(self).spec_pos_iter(),
            final(self).spec_last_score() == old(self).spec_last_score(),
            final(self).spec_last_swap() == old(self).spec_last_swap(),
            final(self).map_wf() == old(self).map_wf(),
    {
        self.is_elite = false;
    }

    /// How many iterations in a row the keyboard has improved.
    pub fn get_pos_iter(&self) -> (pos_iter: usize)
        ensures
            pos_iter == self.spec_pos_iter(),
    {
        self.pos_iter
    }

    /// Counts one more improving iteration; the count starts over at zero
    /// when it would overflow.
    pub fn add_pos_iter(&mut self)
        ensures
            old(self).spec_pos_iter() < usize::MAX ==> final(self).spec_pos_iter() == old(
                self,
            ).spec_pos_iter() + 1,
            old(self).spec_pos_iter() == usize::MAX ==> final(self).spec_pos_iter() == 0,
            final(self).spec_layout() == old(self).spec_layout(),
            final(self).spec_ascii() == old(self).spec_ascii(),
            final(self).spec_valid_slots() == old(self).spec_valid_slots(),
            final(self).spec_generation() == old(self).spec_generation(),
            final(self).spec_id() == old(self).spec_id(),
            final(self).spec_evaluated() == old(self).spec_evaluated(),
            final(self).spec_score() == old(self).spec_score(),
            final(self).spec_is_elite() == old(self).spec_is_elite(),
            final(self).spec_last_score() == old(self).spec_last_score(),
            final(self).spec_last_swap() == old(self).spec_last_swap(),
            final(self).map_wf() == old(self).map_wf(),
    {
        if let Some(iter) = self.pos_iter.checked_add(1) {
            self.pos_iter = iter;
        } else {
            self.pos_iter = 0;
        }
    }
}

/// Every standard key has an entry in a sorted key list, with its own valid
/// slots.
proof fn lemma_sorted_covers(kl: Seq<(Key, Vec<Slot>)>, j: int)
    requires
        is_stable_sort(spec_key_locs(), kl),
        0 <= j < KEY_CNT,
    ensures
        has_entry(kl, std_key(j)),
        valid_of(kl, std_key(j)) == entry_slots(j),
{
    lemma_sorted_key_locs(kl);
    let perm = choose|perm: Seq<int>| #[trigger] is_stable_sort_perm(spec_key_locs(), kl, perm);
    assert(perm.no_duplicates()) by {
        assert forall|a: int, b: int| 0 <= a < perm.len() && 0 <= b < perm.len() && a != b implies perm[a]
            != perm[b] by {}
    }
    perm.unique_seq_to_set();
    vstd::set_lib::lemma_int_range(0, KEY_CNT as int);
    assert(perm.to_set().subset_of(vstd::set_lib::set_int_range(0, KEY_CNT as int)));
    vstd::seq_lib::seq_to_set_is_finite(perm);
    vstd::set_lib::lemma_subset_equality(perm.to_set(), vstd::set_lib::set_int_range(0, KEY_CNT as int));
    assert(vstd::set_lib::set_int_range(0, KEY_CNT as int).contains(j));
    assert(perm.to_set().contains(j));
    let k = choose|k: int| 0 <= k < perm.len() && perm[k] == j;
    assert(kl[k].0 == std_key(j) && kl[k].1@ == entry_slots(j));
    lemma_entry_index(kl, k);
}

/// A layout that puts standard keys in slots of the keyboard, no key twice:
/// its keys type ASCII characters, and keys in different slots share none.
proof fn lemma_std_layout(m: Map<Slot, Key>, idx: spec_fn(Slot) -> int)
    requires
        forall|s: Slot|
            #[trigger] m.dom().contains(s) ==> 0 <= idx(s) < KEY_CNT && m[s] == std_key(idx(s)),
        forall|s1: Slot, s2: Slot|
            #[trigger] m.dom().contains(s1) && #[trigger] m.dom().contains(s2) && s1 != s2 ==> idx(s1)
                != idx(s2),
    ensures
        forall|s: Slot|
            #[trigger] m.dom().contains(s) ==> (m[s].base as int) < ASCII_CNT && (m[s].shift as int)
                < ASCII_CNT,
        forall|s1: Slot, s2: Slot|
            #[trigger] m.dom().contains(s1) && #[trigger] m.dom().contains(s2) && s1 != s2
                ==> !shares_char(m[s1], m[s2]),
{
    assert forall|s: Slot| #[trigger] m.dom().contains(s) implies (m[s].base as int) < ASCII_CNT && (
    m[s].shift as int) < ASCII_CNT by {
        lemma_std_key_chars(idx(s));
    }
    assert forall|s1: Slot, s2: Slot|
        #[trigger] m.dom().contains(s1) && #[trigger] m.dom().contains(s2) && s1 != s2 implies !shares_char(
        m[s1],
        m[s2],
    ) by {
        lemma_std_key_chars(idx(s1));
        lemma_std_key_chars(idx(s2));
    }
}

impl Keyboard {
    /// A keyboard around a full layout of the standard keys, with the sorted
    /// key list.
    fn from_full_layout(key_slots: SlotMap, idx: Ghost<spec_fn(Slot) -> int>, generation: usize, id: usize) -> (kb: Self)
        requires
            key_slots.wf(),
            key_slots@.dom() == layout_set(),
            forall|s: Slot|
                #[trigger] key_slots@.dom().contains(s) ==> 0 <= idx@(s) < KEY_CNT && key_slots@[s]
                    == std_key(idx@(s)),
            forall|s1: Slot, s2: Slot|
                #[trigger] key_slots@.dom().contains(s1) && #[trigger] key_slots@.dom().contains(s2)
                    && s1 != s2 ==> idx@(s1) != idx@(s2),
        ensures
            kb.shuffle_ready(),
            kb.spec_layout() == key_slots@,
            is_stable_sort(spec_key_locs(), kb.spec_valid_slots()),
            kb.spec_id() == id,
            kb.spec_generation() == generation,
            !kb.spec_evaluated(),
            !kb.spec_is_elite(),
            kb.spec_pos_iter() == 0,
            kb.spec_score() == zero_score(),
            kb.spec_last_score() == zero_score(),
    {
        let valid_key_locs_sorted: Vec<(Key, Vec<Slot>)> = get_valid_key_locs_sorted();
        proof {
            lemma_sorted_key_locs(valid_key_locs_sorted@);
            lemma_std_layout(key_slots@, idx@);
        }
        let slot_ascii = build_slot_ascii(&key_slots);
        let origin = Slot::from_tuple((0, 0));
        let blank = Key::from_tuple((0, 0));
        let kb = Self {
            key_slots,
            valid_slots: valid_key_locs_sorted,
            slot_ascii,
            last_slot_idx: None,
            prev_slot_idx: None,
            generation,
            id,
            evaluated: false,
            score: Score { eff_sum: 0, left_uses: 0, right_uses: 0 },
            is_elite: false,
            pos_iter: 0,
            last_score: Score { eff_sum: 0, left_uses: 0, right_uses: 0 },
            last_swap_a: (origin, blank),
            last_swap_b: (origin, blank),
        };
        proof {
            assert forall|s: Slot| #[trigger] kb.spec_layout().dom().contains(s) implies layout_slot(s) by {
                assert(layout_set().contains(s));
            }
            assert forall|s: Slot| layout_slot(s) implies #[trigger] kb.spec_layout().dom().contains(s) by {
                assert(layout_set().contains(s));
            }
            assert forall|s: Slot| #[trigger] kb.spec_layout().dom().contains(s) implies has_entry(
                kb.spec_valid_slots(),
                kb.spec_layout()[s],
            ) by {
                lemma_sorted_covers(kb.spec_valid_slots(), idx@(s));
            }
        }
        kb
    }

    /// The QWERTY layout.
    pub fn create_qwerty() -> (kb: Self)
        ensures
            kb.shuffle_ready(),
            kb.spec_layout() == qwerty_layout(),
            is_stable_sort(spec_key_locs(), kb.spec_valid_slots()),
            kb.spec_id() == 0,
            kb.spec_generation() == 0,
            !kb.spec_evaluated(),
            !kb.spec_is_elite(),
            kb.spec_pos_iter() == 0,
            kb.spec_score() == zero_score(),
            kb.spec_last_score() == zero_score(),
    {
        let mut key_slots = SlotMap::new();
        place_qwerty_keys(&mut key_slots);
        let ghost idx = |s: Slot| qwerty_std(layout_index(s));
        proof {
            assert(key_slots@ =~= qwerty_layout());
            assert(key_slots@.dom() =~= layout_set());
            assert forall|s: Slot| #[trigger] key_slots@.dom().contains(s) implies 0 <= idx(s) < KEY_CNT
                && key_slots@[s] == std_key(idx(s)) by {
                lemma_layout_index(s);
                lemma_qwerty_perm(layout_index(s));
            }
            assert forall|s1: Slot, s2: Slot|
                #[trigger] key_slots@.dom().contains(s1) && #[trigger] key_slots@.dom().contains(s2)
                    && s1 != s2 implies idx(s1) != idx(s2) by {
                lemma_layout_index(s1);
                lemma_layout_index(s2);
                lemma_qwerty_perm(layout_index(s1));
                lemma_qwerty_perm(layout_index(s2));
            }
        }
        Self::from_full_layout(key_slots, Ghost(idx), 0, 0)
    }

    /// The Dvorak layout.
    pub fn create_dvorak() -> (kb: Self)
        ensures
            kb.shuffle_ready(),
            kb.spec_layout() == dvorak_layout(),
            is_stable_sort(spec_key_locs(), kb.spec_valid_slots()),
            kb.spec_id() == 0,
            kb.spec_generation() == 0,
            !kb.spec_evaluated(),
            !kb.spec_is_elite(),
            kb.spec_pos_iter() == 0,
            kb.spec_score() == zero_score(),
            kb.spec_last_score() == zero_score(),
    {
        let mut key_slots = SlotMap::new();
        place_dvorak_keys(&mut key_slots);
        let ghost idx = |s: Slot| dvorak_std(layout_index(s));
        proof {
            assert(key_slots@ =~= dvorak_layout());
            assert(key_slots@.dom() =~= layout_set());
            assert forall|s: Slot| #[trigger] key_slots@.dom().contains(s) implies 0 <= idx(s) < KEY_CNT
                && key_slots@[s] == std_key(idx(s)) by {
                lemma_layout_index(s);
                lemma_dvorak_perm(layout_index(s));
            }
            assert forall|s1: Slot, s2: Slot|
                #[trigger] key_slots@.dom().contains(s1) && #[trigger] key_slots@.dom().contains(s2)
                    && s1 != s2 implies idx(s1) != idx(s2) by {
                lemma_layout_index(s1);
                lemma_layout_index(s2);
                lemma_dvorak_perm(layout_index(s1));
                lemma_dvorak_perm(layout_index(s2));
            }
        }
        Self::from_full_layout(key_slots, Ghost(idx), 0, 0)
    }
}

/// A slot outside the alpha area: on the number row or right of the right
/// pinky's column.
pub open spec fn outside_alpha(s: Slot) -> bool {
    s.row < TOP_ROW || s.col > R_PINKY
}

/// Whether the key in `slot` may be the first key of a table swap: any key
/// but one with a single valid slot outside the alpha area.
pub open spec fn spec_first_pick(valid_slots: Seq<(Key, Vec<Slot>)>, slot: Slot, key: Key) -> bool {
    !(outside_alpha(slot) && valid_of(valid_slots, key).len() == 1)
}

/// Whether the key in `slot_b` may trade places with `key_a` in `slot_a` in
/// a table swap: the trade is allowed and `slot_b` is in the alpha area.
pub open spec fn spec_second_pick(
    valid_slots: Seq<(Key, Vec<Slot>)>,
    slot_a: Slot,
    key_a: Key,
    slot_b: Slot,
    key_b: Key,
) -> bool {
    spec_shuffle_check(valid_slots, slot_a, key_a, slot_b, key_b) && !outside_alpha(slot_b)
}

/// The (slot, key) pairs of the first `n` entries of the slot table, in
/// slot order.
pub open spec fn entries_upto(m: Map<Slot, Key>, n: nat) -> Seq<(Slot, Key)>
    decreases n,
{
    if n == 0 {
        Seq::empty()
    } else {
        let prev = entries_upto(m, (n - 1) as nat);
        let s = table_slot(n - 1);
        if m.dom().contains(s) {
            prev.push((s, m[s]))
        } else {
            prev
        }
    }
}

/// The (slot, key) pairs of a layout in slot order: by row, then by column.
pub open spec fn layout_entries(m: Map<Slot, Key>) -> Seq<(Slot, Key)> {
    entries_upto(m, TABLE_LEN as nat)
}

proof fn lemma_filter_push(s: Seq<(Slot, Key)>, x: (Slot, Key), p: spec_fn((Slot, Key)) -> bool)
    ensures
        s.push(x).filter(p) == (if p(x) {
            s.filter(p).push(x)
        } else {
            s.filter(p)
        }),
{
    reveal_with_fuel(Seq::filter, 1);
    assert(s.push(x).drop_last() =~= s);
    assert(s.push(x).last() == x);
}

impl Keyboard {
    /// The (slot, key) pairs, in slot order, whose key may be the first key
    /// of a table swap.
    pub fn first_pick_candidates(&self) -> (picks: Vec<(Slot, Key)>)
        requires
            self.shuffle_ready(),
        ensures
            picks@ == layout_entries(self.spec_layout()).filter(
                |e: (Slot, Key)| spec_first_pick(self.spec_valid_slots(), e.0, e.1),
            ),
    {
        let ghost p = |e: (Slot, Key)| spec_first_pick(self.spec_valid_slots(), e.0, e.1);
        let ghost m = self.spec_layout();
        let mut picks: Vec<(Slot, Key)> = Vec::new();
        let mut i: usize = 0;
        while i < TABLE_LEN
            invariant
                i <= TABLE_LEN,
                self.shuffle_ready(),
                m == self.spec_layout(),
                p == (|e: (Slot, Key)| spec_first_pick(self.spec_valid_slots(), e.0, e.1)),
                picks@ == entries_upto(m, i as nat).filter(p),
            decreases TABLE_LEN - i,
        {
            proof {
                lemma_table_slot(i as int);
            }
            let slot = Slot { row: i / TABLE_COLS, col: i % TABLE_COLS };
            assert(slot == table_slot(i as int));
            match self.key_slots.get(&slot) {
                Some(key) => {
                    let k = find_entry(&self.valid_slots, key);
                    let pick = !((slot.row < TOP_ROW || slot.col > R_PINKY) && self.valid_slots[k].1.len() == 1);
                    proof {
                        lemma_entry_index(self.valid_slots@, k as int);
                        lemma_filter_push(entries_upto(m, i as nat), (slot, key), p);
                    }
                    if pick {
                        picks.push((slot, key));
                    }
                },
                None => {},
            }
            i = i + 1;
        }
        picks
    }

    /// The (slot, key) pairs, in slot order, whose key may trade places with
    /// `key_a` in `slot_a` in a table swap.
    pub fn second_pick_candidates(&self, slot_a: Slot, key_a: Key) -> (picks: Vec<(Slot, Key)>)
        requires
            self.shuffle_ready(),
            has_entry(self.spec_valid_slots(), key_a),
        ensures
            picks@ == layout_entries(self.spec_layout()).filter(
                |e: (Slot, Key)| spec_second_pick(self.spec_valid_slots(), slot_a, key_a, e.0, e.1),
            ),
    {
        let ghost p = |e: (Slot, Key)| spec_second_pick(self.spec_valid_slots(), slot_a, key_a, e.0, e.1);
        let ghost m = self.spec_layout();
        let mut picks: Vec<(Slot, Key)> = Vec::new();
        let mut i: usize = 0;
        while i < TABLE_LEN
            invariant
                i <= TABLE_LEN,
                self.shuffle_ready(),
                has_entry(self.spec_valid_slots(), key_a),
                m == self.spec_layout(),
                p == (|e: (Slot, Key)| spec_second_pick(self.spec_valid_slots(), slot_a, key_a, e.0, e.1)),
                picks@ == entries_upto(m, i as nat).filter(p),
            decreases TABLE_LEN - i,
        {
            proof {
                lemma_table_slot(i as int);
            }
            let slot = Slot { row: i / TABLE_COLS, col: i % TABLE_COLS };
            assert(slot == table_slot(i as int));
            match self.key_slots.get(&slot) {
                Some(key) => {
                    let pick = shuffle_check(&self.valid_slots, slot_a, key_a, slot, key)
                        && !(slot.row < TOP_ROW || slot.col > R_PINKY);
                    proof {
                        lemma_filter_push(entries_upto(m, i as nat), (slot, key), p);
                    }
                    if pick {
                        picks.push((slot, key));
                    }
                },
                None => {},
            }
            i = i + 1;
        }
        picks
    }

    /// Trades the places of two keys chosen for a table swap, remembering the
    /// current score as the score before the swap.
    pub fn table_swap(&mut self, slot_a: Slot, key_a: Key, slot_b: Slot, key_b: Key)
        requires
            old(self).shuffle_ready(),
            old(self).spec_layout().dom().contains(slot_a),
            old(self).spec_layout()[slot_a] == key_a,
            old(self).spec_layout().dom().contains(slot_b),
            old(self).spec_layout()[slot_b] == key_b,
            spec_first_pick(old(self).spec_valid_slots(), slot_a, key_a),
            spec_second_pick(old(self).spec_valid_slots(), slot_a, key_a, slot_b, key_b),
        ensures
            final(self).shuffle_ready(),
            final(self).spec_layout() == swapped(old(self).spec_layout(), slot_a, slot_b),
            old(self).all_valid() ==> final(self).all_valid(),
            !final(self).spec_evaluated(),
            final(self).spec_last_score() == old(self).spec_score(),
            final(self).spec_last_swap() == ((slot_a, key_a), (slot_b, key_b)),
            final(self).spec_valid_slots() == old(self).spec_valid_slots(),
            final(self).spec_score() == old(self).spec_score(),
            final(self).spec_generation() == old(self).spec_generation(),
            final(self).spec_id() == old(self).spec_id(),
            final(self).spec_is_elite() == old(self).spec_is_elite(),
            final(self).spec_pos_iter() == old(self).spec_pos_iter(),
    {
        self.evaluated = false;
        self.last_score = self.score;
        let ghost before = *self;
        self.swap_keys(slot_a, key_a, slot_b, key_b);
        proof {
            let m = before.spec_layout();
            let m2 = self.spec_layout();
            assert forall|s: Slot| layout_slot(s) implies #[trigger] m2.dom().contains(s) by {
                assert(m.dom().contains(s));
            }
            assert forall|s: Slot| #[trigger] m2.dom().contains(s) implies has_entry(
                self.spec_valid_slots(),
                m2[s],
            ) by {
                if s != slot_a && s != slot_b {
                    assert(m[s] == m2[s]);
                }
            }
            if before.all_valid() {
                assert forall|s: Slot| #[trigger] m2.dom().contains(s) implies valid_of(
                    self.spec_valid_slots(),
                    m2[s],
                ).contains(s) by {
                    if s != slot_a && s != slot_b {
                        assert(m[s] == m2[s]);
                    }
                }
            }
        }
    }

    /// The current score and the score before the last table swap.
    pub fn get_last_score(&self) -> (score: Score)
        ensures
            score == self.spec_last_score(),
    {
        self.last_score
    }

    /// The two (slot, key) pairs of the last swap, each key with the slot it
    /// left.
    pub fn get_last_swap(&self) -> (swap: ((Slot, Key), (Slot, Key)))
        ensures
            swap == self.spec_last_swap(),
    {
        (self.last_swap_a, self.last_swap_b)
    }
}

/// Whether slot `x` is among the first `n` slots of `slots`.
fn slot_in_prefix(slots: &Vec<Slot>, n: usize, x: Slot) -> (found: bool)
    requires
        n <= slots@.len(),
    ensures
        found == slots@.take(n as int).contains(x),
{
    let mut i: usize = 0;
    while i < n
        invariant
            i <= n <= slots@.len(),
            forall|k: int| 0 <= k < i ==> slots@[k] != x,
        decreases n - i,
    {
        if slots[i] == x {
            assert(slots@.take(n as int)[i as int] == x);
            return true;
        }
        i = i + 1;
    }
    false
}

impl Keyboard {
    /// A keyboard with key `k` of the sorted key list in slot
    /// `placement[k]`, for every `k`; `None` unless there is one slot per
    /// key, each key's slot is one of its valid slots and no slot is used
    /// twice.
    pub fn from_placement(
        valid_key_locs: Vec<(Key, Vec<Slot>)>,
        placement: &Vec<Slot>,
        gen_in: usize,
        id_in: usize,
    ) -> (kb: Option<Self>)
        requires
            is_stable_sort(spec_key_locs(), valid_key_locs@),
        ensures
            kb is Some <==> is_placement(Map::<Slot, Key>::empty(), valid_key_locs@, 0, placement@),
            kb matches Some(k) ==> {
                &&& k.shuffle_ready()
                &&& k.all_valid()
                &&& k.spec_layout() == apply_placement(
                    Map::<Slot, Key>::empty(),
                    valid_key_locs@,
                    0,
                    placement@,
                )
                &&& k.spec_valid_slots() == valid_key_locs@
                &&& k.spec_generation() == gen_in
                &&& k.spec_id() == id_in
                &&& !k.spec_evaluated()
                &&& !k.spec_is_elite()
                &&& k.spec_pos_iter() == 0
                &&& k.spec_score() == zero_score()
                &&& k.spec_last_score() == zero_score()
            },
    {
        let ghost kl = valid_key_locs@;
        let ghost a = placement@;
        let ghost empty = Map::<Slot, Key>::empty();
        proof {
            lemma_sorted_key_locs(kl);
        }
        if placement.len() != valid_key_locs.len() {
            return None;
        }
        let mut key_slots = SlotMap::new();
        let mut i: usize = 0;
        while i < placement.len()
            invariant
                i <= placement@.len() == kl.len() == valid_key_locs@.len(),
                kl == valid_key_locs@,
                a == placement@,
                slots_in_table(kl),
                key_slots.wf(),
                key_slots@.dom() == a.take(i as int).to_set(),
                forall|j: int| 0 <= j < i ==> kl[j].1@.contains(#[trigger] a[j]),
                forall|j: int| 0 <= j < i ==> key_slots@[#[trigger] a[j]] == kl[j].0,
                a.take(i as int).no_duplicates(),
            decreases placement@.len() - i,
        {
            let slot = placement[i];
            if slot_in_prefix(placement, i, slot) {
                proof {
                    let k = choose|k: int| 0 <= k < i && a.take(i as int)[k] == slot;
                    assert(a[k] == a[i as int]);
                    assert(!a.no_duplicates());
                }
                return None;
            }
            let mut found = false;
            let mut k: usize = 0;
            while k < valid_key_locs[i].1.len()
                invariant
                    i < valid_key_locs@.len(),
                    k <= valid_key_locs@[i as int].1@.len(),
                    found <==> exists|t: int|
                        0 <= t < k && #[trigger] valid_key_locs@[i as int].1@[t] == slot,
                decreases valid_key_locs@[i as int].1@.len() - k,
            {
                if valid_key_locs[i].1[k] == slot {
                    found = true;
                }
                k = k + 1;
            }
            if !found {
                proof {
                    assert(!kl[0 + i].1@.contains(a[i as int]));
                }
                return None;
            }
            proof {
                let j = choose|j: int| 0 <= j < kl[i as int].1@.len() && kl[i as int].1@[j] == slot;
                assert(in_table(kl[i as int].1@[j]));
            }
            key_slots.insert(slot, valid_key_locs[i].0);
            proof {
                assert(a.take(i as int + 1) =~= a.take(i as int).push(slot));
                assert(!a.take(i as int).contains(slot));
                a.take(i as int).lemma_push_to_set_commute(slot);
                assert forall|j: int| 0 <= j < i implies a[j] != slot by {
                    assert(a.take(i as int)[j] == a[j]);
                }
            }
            i = i + 1;
        }
        proof {
            assert(a.take(a.len() as int) =~= a);
            assert forall|j: int| 0 <= j < a.len() implies kl[0 + j].1@.contains(#[trigger] a[j]) by {}
            assert(is_placement(empty, kl, 0, a));
            lemma_apply_placement(empty, kl, 0, a);
            lemma_full_placement(kl, a);
            let m = apply_placement(empty, kl, 0, a);
            assert(key_slots@.dom() =~= m.dom());
            assert forall|s: Slot| #[trigger] key_slots@.dom().contains(s) implies key_slots@[s] == m[s] by {
                let j = choose|j: int| 0 <= j < a.len() && a[j] == s;
                assert(m[a[j]] == kl[0 + j].0);
            }
            assert(key_slots@ =~= m);
        }
        let slot_ascii = build_slot_ascii(&key_slots);
        let origin = Slot::from_tuple((0, 0));
        let blank = Key::from_tuple((0, 0));
        let kb = Self {
            key_slots,
            valid_slots: valid_key_locs,
            slot_ascii,
            last_slot_idx: None,
            prev_slot_idx: None,
            generation: gen_in,
            id: id_in,
            evaluated: false,
            score: Score { eff_sum: 0, left_uses: 0, right_uses: 0 },
            is_elite: false,
            pos_iter: 0,
            last_score: Score { eff_sum: 0, left_uses: 0, right_uses: 0 },
            last_swap_a: (origin, blank),
            last_swap_b: (origin, blank),
        };
        proof {
            lemma_layout_set();
            assert forall|s: Slot| #[trigger] kb.spec_layout().dom().contains(s) implies layout_slot(s) by {
                assert(layout_set().contains(s));
            }
            assert forall|s: Slot| layout_slot(s) implies #[trigger] kb.spec_layout().dom().contains(s) by {
                assert(layout_set().contains(s));
            }
        }
        Some(kb)
    }
}

/// The evaluation sees a text only through the slots its bytes are typed on.
proof fn lemma_eval_by_slots(ascii: Seq<Option<Slot>>, b1: Seq<u8>, b2: Seq<u8>)
    requires
        b1.len() == b2.len(),
        forall|i: int| 0 <= i < b1.len() ==> byte_slot(ascii, #[trigger] b1[i]) == byte_slot(ascii, b2[i]),
    ensures
        spec_eval_bytes(ascii, b1) == spec_eval_bytes(ascii, b2),
    decreases b1.len(),
{
    if b1.len() > 0 {
        let n = b1.len() - 1;
        assert(b1.drop_last().len() == b2.drop_last().len());
        assert forall|i: int| 0 <= i < b1.drop_last().len() implies byte_slot(ascii, #[trigger] b1.drop_last()[i])
            == byte_slot(ascii, b2.drop_last()[i]) by {
            assert(b1.drop_last()[i] == b1[i] && b2.drop_last()[i] == b2[i]);
        }
        lemma_eval_by_slots(ascii, b1.drop_last(), b2.drop_last());
        assert(byte_slot(ascii, b1[n]) == byte_slot(ascii, b2[n]));
    }
}

/// Use of the shift key is not considered: in a text typed on a keyboard,
/// replacing characters by the other character of the same key (a letter by
/// its capital, `1` by `!`) leaves the evaluation unchanged.
pub proof fn lemma_shift_not_considered(kb: Keyboard, b1: Seq<u8>, b2: Seq<u8>)
    requires
        kb.wf(),
        b1.len() == b2.len(),
        forall|i: int|
            0 <= i < b1.len() ==> #[trigger] b1[i] == b2[i] || exists|s: Slot|
                #[trigger] kb.spec_layout().dom().contains(s) && kb.spec_layout()[s].types(b1[i])
                    && kb.spec_layout()[s].types(b2[i]),
    ensures
        spec_eval_bytes(kb.spec_ascii(), b1) == spec_eval_bytes(kb.spec_ascii(), b2),
{
    let ascii = kb.spec_ascii();
    let m = kb.spec_layout();
    assert forall|i: int| 0 <= i < b1.len() implies byte_slot(ascii, #[trigger] b1[i]) == byte_slot(
        ascii,
        b2[i],
    ) by {
        if b1[i] != b2[i] {
            let s = choose|s: Slot|
                #[trigger] m.dom().contains(s) && m[s].types(b1[i]) && m[s].types(b2[i]);
            let k = m[s];
            assert(ascii[k.base as int] == Some(s) && ascii[k.shift as int] == Some(s));
        }
    }
    lemma_eval_by_slots(ascii, b1, b2);
}

/// Two keyboards with the same layout get the same evaluation of any text.
pub proof fn lemma_same_layout_same_eval(kb1: Keyboard, kb2: Keyboard, bytes: Seq<u8>)
    requires
        kb1.wf(),
        kb2.wf(),
        kb1.spec_layout() == kb2.spec_layout(),
    ensures
        spec_eval_bytes(kb1.spec_ascii(), bytes) == spec_eval_bytes(kb2.spec_ascii(), bytes),
{
    lemma_ascii_determined(kb1.spec_layout(), kb1.spec_ascii(), kb2.spec_ascii());
}

/// A key with a single valid slot that sits outside the alpha area (on the
/// number row or right of the right pinky's column) is never picked first
/// for a table swap; a key in the alpha area, or one with a choice of slots,
/// always may be.
pub proof fn lemma_first_pick_rule(valid_slots: Seq<(Key, Vec<Slot>)>, slot: Slot, key: Key)
    ensures
        (slot.row < TOP_ROW || slot.col > R_PINKY) && valid_of(valid_slots, key).len() == 1
            ==> !spec_first_pick(valid_slots, slot, key),
        TOP_ROW <= slot.row && slot.col <= R_PINKY ==> spec_first_pick(valid_slots, slot, key),
        valid_of(valid_slots, key).len() != 1 ==> spec_first_pick(valid_slots, slot, key),
{
}

/// On a keyboard whose keys all sit in valid slots of the sorted key list
/// (such as the first layout), the keys that may be picked first for a table
/// swap are exactly those of the alpha area.
pub proof fn lemma_first_picks_alpha(kb: Keyboard)
    requires
        kb.shuffle_ready(),
        kb.all_valid(),
        is_stable_sort(spec_key_locs(), kb.spec_valid_slots()),
    ensures
        forall|s: Slot|
            #[trigger] kb.spec_layout().dom().contains(s) ==> (spec_first_pick(
                kb.spec_valid_slots(),
                s,
                kb.spec_layout()[s],
            ) <==> alpha_slot(s)),
{
    let vs = kb.spec_valid_slots();
    let m = kb.spec_layout();
    assert forall|s: Slot| #[trigger] m.dom().contains(s) implies (spec_first_pick(vs, s, m[s])
        <==> alpha_slot(s)) by {
        assert(layout_slot(s));
        if !alpha_slot(s) {
            let k = m[s];
            let i = entry_index(vs, k);
            assert(vs[i].0 == k);
            lemma_entry_index(vs, i);
            assert(valid_of(vs, k).contains(s));
            if valid_of(vs, k).len() != 1 {
                lemma_sorted_alpha(vs, i, s);
            }
        }
    }
}

/// Which history a key's efficiency uses: the key just before it when the
/// same hand typed it (a bigram); failing that the key two before when the
/// same hand typed that one (a skipgram); failing both, the key's own cost.
pub proof fn lemma_efficiency_history(this_slot: Slot, last: Option<Slot>, prev: Option<Slot>)
    ensures
        ({
            let g = spec_global_adjustments(this_slot) as nat;
            let same_last = last is Some && spec_hand(last->Some_0.col) == spec_hand(this_slot.col);
            let same_prev = prev is Some && spec_hand(prev->Some_0.col) == spec_hand(this_slot.col);
            let e = spec_efficiency(this_slot, last, prev);
            &&& same_last ==> e == g * (spec_compare_slots(this_slot, last->Some_0, true)->Mult_0 as nat)
            &&& !same_last && same_prev ==> e == g * (spec_compare_slots(
                this_slot,
                prev->Some_0,
                false,
            )->Mult_0 as nat)
            &&& !same_last && !same_prev ==> e == g * (spec_check_key_no_hist(this_slot) as nat)
                * 100_000
        }),
{
    if last is Some {
        crate::eval_funcs::lemma_mismatch_iff_other_hand(this_slot, last->Some_0, true);
    }
    if prev is Some {
        crate::eval_funcs::lemma_mismatch_iff_other_hand(this_slot, prev->Some_0, false);
    }
}

} // verus!
