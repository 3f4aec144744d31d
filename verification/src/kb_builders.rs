//! Building layouts: the slots where each key may go, and the placement of
//! keys into slots.
use vstd::prelude::*;

use crate::constants::{
    ASCII_CNT, A, B, BACKSLASH, BOT_ROW, BOT_ROW_CNT, C, COMMA, D, DASH, E, EIGHT, EQUALS, F, FIVE, FOUR,
    F_SLASH, G, H, HOME_ROW, HOME_ROW_CNT, I, J, K, L, L_BRACKET, L_EXT, L_INDEX, L_MIDDLE,
    L_PINKY, L_RING, M, N, NEWLINE, NINE, NUM_ROW, NUM_ROW_CNT, O, ONE, P, PERIOD, Q, QUOTE, R,
    R_BRACKET, R_EXT, R_INDEX, R_MIDDLE, R_NETHER, R_PINKY, R_PIPE, R_RING, R_SYMBOL, S,
    SEMICOLON, SEVEN, SIX, T, THREE, TOP_ROW, TOP_ROW_CNT, TWO, U, V, W, X, Y, Z, ZERO,
};
use crate::keyboard::{
    copy_vec, find_entry, has_entry, in_table, keys_distinct, lemma_entry_index, spec_check_col,
    valid_of, Key, Slot, SlotMap,
};

verus! {

/// Every slot that the list names is one the slot table can hold.
pub open spec fn slots_in_table(valid_slots: Seq<(Key, Vec<Slot>)>) -> bool {
    forall|i: int, j: int|
        0 <= i < valid_slots.len() && 0 <= j < valid_slots[i].1@.len() ==> in_table(
            #[trigger] valid_slots[i].1@[j],
        )
}

/// The keys `valid_slots[idx..]` can each be placed, in order, in a free slot
/// of their own list, one key per slot: placing key `idx` in one of its free
/// slots leaves a map in which the remaining keys can be placed.
pub open spec fn can_extend(m: Map<Slot, Key>, valid_slots: Seq<(Key, Vec<Slot>)>, idx: int) -> bool
    decreases valid_slots.len() - idx,
{
    if idx < 0 || idx >= valid_slots.len() {
        true
    } else {
        exists|j: int|
            0 <= j < valid_slots[idx].1@.len() && !m.dom().contains(
                #[trigger] valid_slots[idx].1@[j],
            ) && can_extend(m.insert(valid_slots[idx].1@[j], valid_slots[idx].0), valid_slots, idx + 1)
    }
}

/// `a` gives each key of `valid_slots[idx..]` a slot of its own list that `m`
/// leaves free, and no slot twice.
pub open spec fn is_placement(
    m: Map<Slot, Key>,
    valid_slots: Seq<(Key, Vec<Slot>)>,
    idx: int,
    a: Seq<Slot>,
) -> bool {
    &&& 0 <= idx <= valid_slots.len()
    &&& a.len() == valid_slots.len() - idx
    &&& forall|j: int| 0 <= j < a.len() ==> valid_slots[idx + j].1@.contains(#[trigger] a[j])
    &&& forall|j: int| 0 <= j < a.len() ==> !m.dom().contains(#[trigger] a[j])
    &&& a.no_duplicates()
}

/// The map `m` with key `valid_slots[idx + j].0` put in slot `a[j]`.
pub open spec fn apply_placement(
    m: Map<Slot, Key>,
    valid_slots: Seq<(Key, Vec<Slot>)>,
    idx: int,
    a: Seq<Slot>,
) -> Map<Slot, Key>
    decreases a.len(),
{
    if a.len() == 0 {
        m
    } else {
        apply_placement(m.insert(a[0], valid_slots[idx].0), valid_slots, idx + 1, a.drop_first())
    }
}

/// A placement exists exactly when the keys can be placed one after the
/// other: `can_extend` is the existence of an injective assignment of free,
/// valid slots to the remaining keys.
pub proof fn lemma_can_extend_iff_placement(
    m: Map<Slot, Key>,
    valid_slots: Seq<(Key, Vec<Slot>)>,
    idx: int,
)
    requires
        0 <= idx <= valid_slots.len(),
    ensures
        can_extend(m, valid_slots, idx) <==> exists|a: Seq<Slot>|
            is_placement(m, valid_slots, idx, a),
    decreases valid_slots.len() - idx,
{
    if idx == valid_slots.len() {
        assert(is_placement(m, valid_slots, idx, Seq::<Slot>::empty()));
    } else {
        if can_extend(m, valid_slots, idx) {
            let j = choose|j: int|
                0 <= j < valid_slots[idx].1@.len() && !m.dom().contains(
                    #[trigger] valid_slots[idx].1@[j],
                ) && can_extend(
                    m.insert(valid_slots[idx].1@[j], valid_slots[idx].0),
                    valid_slots,
                    idx + 1,
                );
            let s = valid_slots[idx].1@[j];
            let m2 = m.insert(s, valid_slots[idx].0);
            lemma_can_extend_iff_placement(m2, valid_slots, idx + 1);
            let rest = choose|a: Seq<Slot>| #[trigger] is_placement(m2, valid_slots, idx + 1, a);
            let a = seq![s] + rest;
            assert forall|k: int| 0 <= k < a.len() implies valid_slots[idx + k].1@.contains(
                #[trigger] a[k],
            ) by {
                if k == 0 {
                    assert(valid_slots[idx].1@[j] == a[0]);
                } else {
                    assert(a[k] == rest[k - 1]);
                    assert(valid_slots[idx + 1 + (k - 1)].1@.contains(rest[k - 1]));
                }
            }
            assert forall|k: int| 0 <= k < a.len() implies !m.dom().contains(#[trigger] a[k]) by {
                if k > 0 {
                    assert(a[k] == rest[k - 1]);
                    assert(!m2.dom().contains(rest[k - 1]));
                }
            }
            assert forall|k1: int, k2: int|
                0 <= k1 < a.len() && 0 <= k2 < a.len() && k1 != k2 implies a[k1] != a[k2] by {
                if k1 > 0 {
                    assert(!m2.dom().contains(rest[k1 - 1]));
                }
                if k2 > 0 {
                    assert(!m2.dom().contains(rest[k2 - 1]));
                }
            }
            assert(is_placement(m, valid_slots, idx, a));
        }
        if exists|a: Seq<Slot>| #[trigger] is_placement(m, valid_slots, idx, a) {
            let a = choose|a: Seq<Slot>| #[trigger] is_placement(m, valid_slots, idx, a);
            let s = a[0];
            assert(valid_slots[idx + 0].1@.contains(a[0]));
            let j = choose|j: int| 0 <= j < valid_slots[idx].1@.len() && valid_slots[idx].1@[j] == s;
            let m2 = m.insert(s, valid_slots[idx].0);
            let rest = a.drop_first();
            assert forall|k: int| 0 <= k < rest.len() implies valid_slots[idx + 1 + k].1@.contains(
                #[trigger] rest[k],
            ) by {
                assert(rest[k] == a[k + 1]);
                assert(valid_slots[idx + (k + 1)].1@.contains(a[k + 1]));
            }
            assert forall|k: int| 0 <= k < rest.len() implies !m2.dom().contains(
                #[trigger] rest[k],
            ) by {
                assert(rest[k] == a[k + 1]);
                assert(!m.dom().contains(a[k + 1]));
                assert(a[k + 1] != a[0]);
            }
            assert(is_placement(m2, valid_slots, idx + 1, rest));
            lemma_can_extend_iff_placement(m2, valid_slots, idx + 1);
            assert(can_extend(m2, valid_slots, idx + 1));
            assert(!m.dom().contains(valid_slots[idx].1@[j]));
        }
    }
}

/// Slot `j` of key `idx`'s list is free in `m`, and the keys after `idx`
/// can still be placed once key `idx` takes it.
pub open spec fn choice_ok(m: Map<Slot, Key>, valid_slots: Seq<(Key, Vec<Slot>)>, idx: int, j: int) -> bool {
    !m.dom().contains(valid_slots[idx].1@[j]) && can_extend(
        m.insert(valid_slots[idx].1@[j], valid_slots[idx].0),
        valid_slots,
        idx + 1,
    )
}

/// The position, in key `idx`'s list, of the first slot that `choice_ok`
/// accepts.
pub open spec fn first_choice(m: Map<Slot, Key>, valid_slots: Seq<(Key, Vec<Slot>)>, idx: int) -> int {
    choose|j: int|
        0 <= j < valid_slots[idx].1@.len() && choice_ok(m, valid_slots, idx, j) && forall|j2: int|
            0 <= j2 < j ==> !#[trigger] choice_ok(m, valid_slots, idx, j2)
}

/// The placement that backtracking in list order finds: each key, in turn,
/// takes the first slot of its list that leaves a placement for the keys
/// after it.
pub open spec fn first_placement(m: Map<Slot, Key>, valid_slots: Seq<(Key, Vec<Slot>)>, idx: int) -> Seq<
    Slot,
>
    decreases valid_slots.len() - idx,
{
    if idx < 0 || idx >= valid_slots.len() {
        Seq::empty()
    } else {
        let s = valid_slots[idx].1@[first_choice(m, valid_slots, idx)];
        seq![s] + first_placement(m.insert(s, valid_slots[idx].0), valid_slots, idx + 1)
    }
}

/// Places the keys `valid_slots[idx..]` by backtracking: each key is tried in
/// the free slots of its list, in order, until the remaining keys can be
/// placed. On success the map holds a placement of all the remaining keys; on
/// failure no placement exists and the map is left as it was.
pub fn place_keys(slots: &mut SlotMap, valid_slots: &Vec<(Key, Vec<Slot>)>, idx: usize) -> (placed:
    bool)
    requires
        old(slots).wf(),
        idx <= valid_slots@.len(),
        slots_in_table(valid_slots@),
    ensures
        final(slots).wf(),
        placed == can_extend(old(slots)@, valid_slots@, idx as int),
        !placed ==> final(slots)@ == old(slots)@,
        placed ==> exists|a: Seq<Slot>|
            #[trigger] is_placement(old(slots)@, valid_slots@, idx as int, a) && final(slots)@
                == apply_placement(old(slots)@, valid_slots@, idx as int, a),
        placed ==> final(slots)@ == apply_placement(
            old(slots)@,
            valid_slots@,
            idx as int,
            first_placement(old(slots)@, valid_slots@, idx as int),
        ),
    decreases valid_slots@.len() - idx,
{
    if idx == valid_slots.len() {
        proof {
            let a = Seq::<Slot>::empty();
            assert(is_placement(old(slots)@, valid_slots@, idx as int, a));
            assert(final(slots)@ == apply_placement(old(slots)@, valid_slots@, idx as int, a));
            assert(first_placement(old(slots)@, valid_slots@, idx as int) =~= a);
        }
        return true;
    }
    let total = valid_slots.len();
    let ghost m0 = slots@;
    let ghost vs = valid_slots@;
    let n = valid_slots[idx].1.len();
    let mut i: usize = 0;
    while i < n
        invariant
            slots.wf(),
            slots@ == m0,
            m0 == old(slots)@,
            vs == valid_slots@,
            idx < vs.len(),
            total == vs.len(),
            n == vs[idx as int].1@.len(),
            i <= n,
            slots_in_table(vs),
            forall|j: int|
                0 <= j < i ==> !(!m0.dom().contains(#[trigger] vs[idx as int].1@[j]) && can_extend(
                    m0.insert(vs[idx as int].1@[j], vs[idx as int].0),
                    vs,
                    idx + 1,
                )),
        decreases n - i,
    {
        let slot = valid_slots[idx].1[i];
        if slots.contains_key(&slot) {
            i = i + 1;
            continue;
        }
        let key: Key = valid_slots[idx].0;
        proof {
            assert(in_table(vs[idx as int].1@[i as int]));
        }
        slots.insert(slot, key);
        let next_idx = idx + 1;
        if place_keys(slots, valid_slots, next_idx) {
            proof {
                let m1 = m0.insert(slot, key);
                let rest = choose|a: Seq<Slot>|
                    #[trigger] is_placement(m1, vs, idx + 1, a) && slots@ == apply_placement(
                        m1,
                        vs,
                        idx + 1,
                        a,
                    );
                let a = seq![slot] + rest;
                assert(a[0] == slot);
                assert(a.drop_first() =~= rest);
                assert(apply_placement(m0, vs, idx as int, a) == apply_placement(
                    m1,
                    vs,
                    idx + 1,
                    rest,
                ));
                assert forall|k: int| 0 <= k < a.len() implies vs[idx + k].1@.contains(
                    #[trigger] a[k],
                ) by {
                    if k == 0 {
                        assert(vs[idx as int].1@[i as int] == a[0]);
                    } else {
                        assert(a[k] == rest[k - 1]);
                        assert(vs[idx + 1 + (k - 1)].1@.contains(rest[k - 1]));
                    }
                }
                assert forall|k: int| 0 <= k < a.len() implies !m0.dom().contains(
                    #[trigger] a[k],
                ) by {
                    if k > 0 {
                        assert(a[k] == rest[k - 1]);
                        assert(!m1.dom().contains(rest[k - 1]));
                    }
                }
                assert forall|k1: int, k2: int|
                    0 <= k1 < a.len() && 0 <= k2 < a.len() && k1 != k2 implies a[k1] != a[k2] by {
                    if k1 > 0 {
                        assert(!m1.dom().contains(rest[k1 - 1]));
                    }
                    if k2 > 0 {
                        assert(!m1.dom().contains(rest[k2 - 1]));
                    }
                }
                assert(is_placement(m0, vs, idx as int, a));
                assert(can_extend(m0, vs, idx as int));
                assert(choice_ok(m0, vs, idx as int, i as int));
                assert forall|j2: int| 0 <= j2 < i implies !#[trigger] choice_ok(m0, vs, idx as int, j2) by {
                    assert(!(!m0.dom().contains(vs[idx as int].1@[j2]) && can_extend(
                        m0.insert(vs[idx as int].1@[j2], vs[idx as int].0),
                        vs,
                        idx + 1,
                    )));
                }
                let j0 = first_choice(m0, vs, idx as int);
                assert(j0 == i as int) by {
                    if j0 < i {
                        assert(!choice_ok(m0, vs, idx as int, j0));
                    } else if j0 > i {
                        assert(!choice_ok(m0, vs, idx as int, i as int));
                    }
                }
                let fp_rest = first_placement(m1, vs, idx + 1);
                let fp = seq![slot] + fp_rest;
                assert(first_placement(m0, vs, idx as int) == fp);
                assert(fp[0] == slot);
                assert(fp.drop_first() =~= fp_rest);
                assert(apply_placement(m0, vs, idx as int, fp) == apply_placement(m1, vs, idx + 1, fp_rest));
            }
            return true;
        }
        slots.remove(&slot);
        assert(slots@ =~= m0);
        i = i + 1;
    }
    proof {
        assert(!can_extend(m0, vs, idx as int));
    }
    false
}


// ---------------------------------------------------------------------------
// The slots where each key may go
// ---------------------------------------------------------------------------

pub open spec fn to_slot(p: (usize, usize)) -> Slot {
    Slot { row: p.0, col: p.1 }
}

pub open spec fn slots_of(positions: Seq<(usize, usize)>) -> Seq<Slot> {
    positions.map_values(|p: (usize, usize)| to_slot(p))
}

/// A row of the alpha area: columns 0 to 9 of row `row`.
pub open spec fn spec_default_row(row: usize) -> Seq<Slot> {
    Seq::new(10, |c: int| Slot { row, col: c as usize })
}

/// The alpha area: rows 1 to 3, columns 0 to 9, in row order.
pub open spec fn spec_alpha_all() -> Seq<Slot> {
    spec_default_row(TOP_ROW) + spec_default_row(HOME_ROW) + spec_default_row(BOT_ROW)
}

/// A slot of the alpha area.
pub open spec fn alpha_slot(s: Slot) -> bool {
    TOP_ROW <= s.row <= BOT_ROW && s.col <= R_PINKY
}

pub open spec fn not_in(exclusions: Seq<Slot>) -> spec_fn(Slot) -> bool {
    |x: Slot| !exclusions.contains(x)
}

/// The slots of the alpha area that `exclusions` does not name, in order.
pub open spec fn spec_alpha_slots_tree(exclusions: Seq<(usize, usize)>) -> Seq<Slot> {
    spec_alpha_all().filter(not_in(slots_of(exclusions)))
}

/// The keys of the layout, in the order in which they are listed before
/// sorting: the number row, the pinky extension symbols, then the alpha area.
pub open spec fn std_key(i: int) -> Key {
    if i == 0 {
        Key { base: ONE.0, shift: ONE.1 }
    } else if i == 1 {
        Key { base: TWO.0, shift: TWO.1 }
    } else if i == 2 {
        Key { base: THREE.0, shift: THREE.1 }
    } else if i == 3 {
        Key { base: FOUR.0, shift: FOUR.1 }
    } else if i == 4 {
        Key { base: FIVE.0, shift: FIVE.1 }
    } else if i == 5 {
        Key { base: SIX.0, shift: SIX.1 }
    } else if i == 6 {
        Key { base: SEVEN.0, shift: SEVEN.1 }
    } else if i == 7 {
        Key { base: EIGHT.0, shift: EIGHT.1 }
    } else if i == 8 {
        Key { base: NINE.0, shift: NINE.1 }
    } else if i == 9 {
        Key { base: ZERO.0, shift: ZERO.1 }
    } else if i == 10 {
        Key { base: L_BRACKET.0, shift: L_BRACKET.1 }
    } else if i == 11 {
        Key { base: R_BRACKET.0, shift: R_BRACKET.1 }
    } else if i == 12 {
        Key { base: DASH.0, shift: DASH.1 }
    } else if i == 13 {
        Key { base: EQUALS.0, shift: EQUALS.1 }
    } else if i == 14 {
        Key { base: F_SLASH.0, shift: F_SLASH.1 }
    } else if i == 15 {
        Key { base: BACKSLASH.0, shift: BACKSLASH.1 }
    } else if i == 16 {
        Key { base: NEWLINE.0, shift: NEWLINE.1 }
    } else if i == 17 {
        Key { base: COMMA.0, shift: COMMA.1 }
    } else if i == 18 {
        Key { base: PERIOD.0, shift: PERIOD.1 }
    } else if i == 19 {
        Key { base: SEMICOLON.0, shift: SEMICOLON.1 }
    } else if i == 20 {
        Key { base: QUOTE.0, shift: QUOTE.1 }
    } else if i == 21 {
        Key { base: A.0, shift: A.1 }
    } else if i == 22 {
        Key { base: B.0, shift: B.1 }
    } else if i == 23 {
        Key { base: C.0, shift: C.1 }
    } else if i == 24 {
        Key { base: D.0, shift: D.1 }
    } else if i == 25 {
        Key { base: E.0, shift: E.1 }
    } else if i == 26 {
        Key { base: F.0, shift: F.1 }
    } else if i == 27 {
        Key { base: G.0, shift: G.1 }
    } else if i == 28 {
        Key { base: H.0, shift: H.1 }
    } else if i == 29 {
        Key { base: I.0, shift: I.1 }
    } else if i == 30 {
        Key { base: J.0, shift: J.1 }
    } else if i == 31 {
        Key { base: K.0, shift: K.1 }
    } else if i == 32 {
        Key { base: L.0, shift: L.1 }
    } else if i == 33 {
        Key { base: M.0, shift: M.1 }
    } else if i == 34 {
        Key { base: N.0, shift: N.1 }
    } else if i == 35 {
        Key { base: O.0, shift: O.1 }
    } else if i == 36 {
        Key { base: P.0, shift: P.1 }
    } else if i == 37 {
        Key { base: Q.0, shift: Q.1 }
    } else if i == 38 {
        Key { base: R.0, shift: R.1 }
    } else if i == 39 {
        Key { base: S.0, shift: S.1 }
    } else if i == 40 {
        Key { base: T.0, shift: T.1 }
    } else if i == 41 {
        Key { base: U.0, shift: U.1 }
    } else if i == 42 {
        Key { base: V.0, shift: V.1 }
    } else if i == 43 {
        Key { base: W.0, shift: W.1 }
    } else if i == 44 {
        Key { base: X.0, shift: X.1 }
    } else if i == 45 {
        Key { base: Y.0, shift: Y.1 }
    } else if i == 46 {
        Key { base: Z.0, shift: Z.1 }
    } else {
        Key { base: NEWLINE.0, shift: NEWLINE.1 }
    }
}

/// The slots an alpha key may not take: its home column on all three rows.
pub open spec fn entry_exclusions(i: int) -> Seq<(usize, usize)> {
    if i == 0 {
        Seq::<(usize, usize)>::empty()
    } else if i == 1 {
        Seq::<(usize, usize)>::empty()
    } else if i == 2 {
        Seq::<(usize, usize)>::empty()
    } else if i == 3 {
        Seq::<(usize, usize)>::empty()
    } else if i == 4 {
        Seq::<(usize, usize)>::empty()
    } else if i == 5 {
        Seq::<(usize, usize)>::empty()
    } else if i == 6 {
        Seq::<(usize, usize)>::empty()
    } else if i == 7 {
        Seq::<(usize, usize)>::empty()
    } else if i == 8 {
        Seq::<(usize, usize)>::empty()
    } else if i == 9 {
        Seq::<(usize, usize)>::empty()
    } else if i == 10 {
        Seq::<(usize, usize)>::empty()
    } else if i == 11 {
        Seq::<(usize, usize)>::empty()
    } else if i == 12 {
        Seq::<(usize, usize)>::empty()
    } else if i == 13 {
        Seq::<(usize, usize)>::empty()
    } else if i == 14 {
        Seq::<(usize, usize)>::empty()
    } else if i == 15 {
        Seq::<(usize, usize)>::empty()
    } else if i == 16 {
        Seq::<(usize, usize)>::empty()
    } else if i == 17 {
        seq![(1usize, 9usize), (2usize, 9usize), (3usize, 9usize), (1usize, 7usize), (2usize, 7usize), (3usize, 7usize)]
    } else if i == 18 {
        seq![(1usize, 0usize), (2usize, 0usize), (3usize, 0usize), (1usize, 8usize), (2usize, 8usize), (3usize, 8usize)]
    } else if i == 19 {
        seq![(1usize, 9usize), (2usize, 9usize), (3usize, 9usize)]
    } else if i == 20 {
        seq![(1usize, 9usize), (2usize, 9usize), (3usize, 9usize)]
    } else if i == 21 {
        seq![(1usize, 0usize), (2usize, 0usize), (3usize, 0usize)]
    } else if i == 22 {
        seq![(1usize, 4usize), (2usize, 4usize), (3usize, 4usize)]
    } else if i == 23 {
        seq![(1usize, 2usize), (2usize, 2usize), (3usize, 2usize)]
    } else if i == 24 {
        seq![(1usize, 2usize), (2usize, 2usize), (3usize, 2usize)]
    } else if i == 25 {
        seq![(1usize, 2usize), (2usize, 2usize), (3usize, 2usize)]
    } else if i == 26 {
        seq![(1usize, 3usize), (2usize, 3usize), (3usize, 3usize)]
    } else if i == 27 {
        seq![(1usize, 4usize), (2usize, 4usize), (3usize, 4usize)]
    } else if i == 28 {
        seq![(1usize, 5usize), (2usize, 5usize), (3usize, 5usize)]
    } else if i == 29 {
        seq![(1usize, 7usize), (2usize, 7usize), (3usize, 7usize)]
    } else if i == 30 {
        seq![(1usize, 6usize), (2usize, 6usize), (3usize, 6usize)]
    } else if i == 31 {
        seq![(1usize, 7usize), (2usize, 7usize), (3usize, 7usize)]
    } else if i == 32 {
        seq![(1usize, 8usize), (2usize, 8usize), (3usize, 8usize)]
    } else if i == 33 {
        seq![(1usize, 6usize), (2usize, 6usize), (3usize, 6usize)]
    } else if i == 34 {
        seq![(1usize, 5usize), (2usize, 5usize), (3usize, 5usize)]
    } else if i == 35 {
        seq![(1usize, 8usize), (2usize, 8usize), (3usize, 8usize)]
    } else if i == 36 {
        seq![(1usize, 9usize), (2usize, 9usize), (3usize, 9usize)]
    } else if i == 37 {
        seq![(1usize, 0usize), (2usize, 0usize), (3usize, 0usize)]
    } else if i == 38 {
        seq![(1usize, 3usize), (2usize, 3usize), (3usize, 3usize)]
    } else if i == 39 {
        seq![(1usize, 1usize), (2usize, 1usize), (3usize, 1usize)]
    } else if i == 40 {
        seq![(1usize, 4usize), (2usize, 4usize), (3usize, 4usize)]
    } else if i == 41 {
        seq![(1usize, 6usize), (2usize, 6usize), (3usize, 6usize)]
    } else if i == 42 {
        seq![(1usize, 3usize), (2usize, 3usize), (3usize, 3usize)]
    } else if i == 43 {
        seq![(1usize, 1usize), (2usize, 1usize), (3usize, 1usize)]
    } else if i == 44 {
        seq![(1usize, 1usize), (2usize, 1usize), (3usize, 1usize)]
    } else if i == 45 {
        seq![(1usize, 5usize), (2usize, 5usize), (3usize, 5usize)]
    } else if i == 46 {
        seq![(1usize, 0usize), (2usize, 0usize), (3usize, 0usize)]
    } else {
        Seq::<(usize, usize)>::empty()
    }
}

/// The one slot of a static key.
pub open spec fn static_location(i: int) -> (usize, usize) {
    if i == 0 {
        (0usize, 0usize)
    } else if i == 1 {
        (0usize, 1usize)
    } else if i == 2 {
        (0usize, 2usize)
    } else if i == 3 {
        (0usize, 3usize)
    } else if i == 4 {
        (0usize, 4usize)
    } else if i == 5 {
        (0usize, 5usize)
    } else if i == 6 {
        (0usize, 6usize)
    } else if i == 7 {
        (0usize, 7usize)
    } else if i == 8 {
        (0usize, 8usize)
    } else if i == 9 {
        (0usize, 9usize)
    } else if i == 10 {
        (0usize, 10usize)
    } else if i == 11 {
        (0usize, 11usize)
    } else if i == 12 {
        (1usize, 10usize)
    } else if i == 13 {
        (1usize, 11usize)
    } else if i == 14 {
        (2usize, 10usize)
    } else if i == 15 {
        (1usize, 12usize)
    } else if i == 16 {
        (2usize, 11usize)
    } else if i == 17 {
        (0usize, 0usize)
    } else if i == 18 {
        (0usize, 0usize)
    } else if i == 19 {
        (0usize, 0usize)
    } else if i == 20 {
        (0usize, 0usize)
    } else if i == 21 {
        (0usize, 0usize)
    } else if i == 22 {
        (0usize, 0usize)
    } else if i == 23 {
        (0usize, 0usize)
    } else if i == 24 {
        (0usize, 0usize)
    } else if i == 25 {
        (0usize, 0usize)
    } else if i == 26 {
        (0usize, 0usize)
    } else if i == 27 {
        (0usize, 0usize)
    } else if i == 28 {
        (0usize, 0usize)
    } else if i == 29 {
        (0usize, 0usize)
    } else if i == 30 {
        (0usize, 0usize)
    } else if i == 31 {
        (0usize, 0usize)
    } else if i == 32 {
        (0usize, 0usize)
    } else if i == 33 {
        (0usize, 0usize)
    } else if i == 34 {
        (0usize, 0usize)
    } else if i == 35 {
        (0usize, 0usize)
    } else if i == 36 {
        (0usize, 0usize)
    } else if i == 37 {
        (0usize, 0usize)
    } else if i == 38 {
        (0usize, 0usize)
    } else if i == 39 {
        (0usize, 0usize)
    } else if i == 40 {
        (0usize, 0usize)
    } else if i == 41 {
        (0usize, 0usize)
    } else if i == 42 {
        (0usize, 0usize)
    } else if i == 43 {
        (0usize, 0usize)
    } else if i == 44 {
        (0usize, 0usize)
    } else if i == 45 {
        (0usize, 0usize)
    } else if i == 46 {
        (0usize, 0usize)
    } else {
        (0usize, 0usize)
    }
}

/// Number of keys of the layout.
pub const KEY_CNT: usize = 47;

/// Number of keys that have a single slot; they are listed first.
pub const STATIC_CNT: usize = 17;

pub open spec fn entry_slots(i: int) -> Seq<Slot> {
    if i < STATIC_CNT {
        seq![to_slot(static_location(i))]
    } else {
        spec_alpha_slots_tree(entry_exclusions(i))
    }
}

/// Each key of the layout with the slots where it may go, before sorting.
pub open spec fn spec_key_locs() -> Seq<(Key, Seq<Slot>)> {
    Seq::new(KEY_CNT as nat, |i: int| (std_key(i), entry_slots(i)))
}

/// `output` is `input` reordered by `perm` (`output[k]` is `input[perm[k]]`)
/// so that the slot counts ascend, and entries with equal counts keep their
/// order.
pub open spec fn is_stable_sort_perm(
    input: Seq<(Key, Seq<Slot>)>,
    output: Seq<(Key, Vec<Slot>)>,
    perm: Seq<int>,
) -> bool {
    &&& perm.len() == input.len()
    &&& output.len() == input.len()
    &&& forall|k: int|
        0 <= k < perm.len() ==> 0 <= #[trigger] perm[k] < input.len() && output[k].0 == input[perm[k]].0
            && output[k].1@ == input[perm[k]].1
    &&& forall|k1: int, k2: int|
        0 <= k1 < perm.len() && 0 <= k2 < perm.len() && k1 != k2 ==> #[trigger] perm[k1]
            != #[trigger] perm[k2]
    &&& forall|k1: int, k2: int|
        0 <= k1 < k2 < output.len() ==> #[trigger] output[k1].1@.len() <= #[trigger] output[k2].1@.len()
    &&& forall|k1: int, k2: int|
        0 <= k1 < k2 < output.len() && output[k1].1@.len() == output[k2].1@.len() ==> #[trigger] perm[k1]
            < #[trigger] perm[k2]
}

pub open spec fn is_stable_sort(input: Seq<(Key, Seq<Slot>)>, output: Seq<(Key, Vec<Slot>)>) -> bool {
    exists|perm: Seq<int>| #[trigger] is_stable_sort_perm(input, output, perm)
}

pub fn check_col(row: usize, col: usize) -> (valid: bool)
    ensures
        valid == spec_check_col(row, col),
{
    if row == NUM_ROW {
        col <= NUM_ROW_CNT
    } else if row == TOP_ROW {
        col <= TOP_ROW_CNT
    } else if row == HOME_ROW {
        col <= HOME_ROW_CNT
    } else if row == BOT_ROW {
        col <= BOT_ROW_CNT
    } else {
        false
    }
}

pub fn make_slot_vec(input: &Vec<(usize, usize)>) -> (slots: Vec<Slot>)
    requires
        forall|i: int|
            0 <= i < input@.len() ==> (#[trigger] input@[i]).0 <= BOT_ROW && spec_check_col(
                input@[i].0,
                input@[i].1,
            ),
    ensures
        slots@ == slots_of(input@),
{
    let mut slots: Vec<Slot> = Vec::new();
    let mut i: usize = 0;
    while i < input.len()
        invariant
            i <= input@.len(),
            slots@ == slots_of(input@.take(i as int)),
            forall|i: int|
                0 <= i < input@.len() ==> (#[trigger] input@[i]).0 <= BOT_ROW && spec_check_col(
                    input@[i].0,
                    input@[i].1,
                ),
        decreases input@.len() - i,
    {
        let p = input[i];
        slots.push(Slot::from_tuple(p));
        assert(input@.take(i + 1) == input@.take(i as int).push(p));
        assert(slots@ =~= slots_of(input@.take(i + 1)));
        i = i + 1;
    }
    assert(input@.take(input@.len() as int) == input@);
    slots
}

fn default_row(row: usize) -> (slots: Vec<Slot>)
    requires
        TOP_ROW <= row <= BOT_ROW,
    ensures
        slots@ == spec_default_row(row),
{
    let mut slots: Vec<Slot> = Vec::new();
    let mut col: usize = L_PINKY;
    while col <= R_PINKY
        invariant
            TOP_ROW <= row <= BOT_ROW,
            col <= R_PINKY + 1,
            slots@ == spec_default_row(row).take(col as int),
        decreases R_PINKY + 1 - col,
    {
        slots.push(Slot::from_tuple((row, col)));
        assert(slots@ =~= spec_default_row(row).take(col + 1));
        col = col + 1;
    }
    assert(spec_default_row(row).take(10) =~= spec_default_row(row));
    slots
}

pub fn top_row_tree() -> (slots: Vec<Slot>)
    ensures
        slots@ == spec_default_row(TOP_ROW),
{
    default_row(TOP_ROW)
}

pub fn home_row_tree() -> (slots: Vec<Slot>)
    ensures
        slots@ == spec_default_row(HOME_ROW),
{
    default_row(HOME_ROW)
}

pub fn bottom_row_tree() -> (slots: Vec<Slot>)
    ensures
        slots@ == spec_default_row(BOT_ROW),
{
    default_row(BOT_ROW)
}

fn contains_slot(slots: &Vec<Slot>, x: Slot) -> (found: bool)
    ensures
        found == slots@.contains(x),
{
    let mut i: usize = 0;
    while i < slots.len()
        invariant
            i <= slots@.len(),
            forall|k: int| 0 <= k < i ==> slots@[k] != x,
        decreases slots@.len() - i,
    {
        if slots[i] == x {
            assert(slots@[i as int] == x);
            return true;
        }
        i = i + 1;
    }
    false
}

/// The slots of the alpha area that `exclusions` does not name, in order.
pub fn alpha_slots_tree(exclusions: &Vec<(usize, usize)>) -> (slots: Vec<Slot>)
    requires
        forall|i: int|
            0 <= i < exclusions@.len() ==> (#[trigger] exclusions@[i]).0 <= BOT_ROW
                && spec_check_col(exclusions@[i].0, exclusions@[i].1),
    ensures
        slots@ == spec_alpha_slots_tree(exclusions@),
{
    let mut flat = top_row_tree();
    let mut home = home_row_tree();
    let mut bottom = bottom_row_tree();
    flat.append(&mut home);
    flat.append(&mut bottom);
    let slot_exclusions = make_slot_vec(exclusions);
    let ghost all = flat@;
    assert(all == spec_alpha_all());
    let ghost pred = not_in(slot_exclusions@);
    let mut kept: Vec<Slot> = Vec::new();
    let mut i: usize = 0;
    while i < flat.len()
        invariant
            all == flat@,
            i <= all.len(),
            kept@ == all.take(i as int).filter(pred),
            pred == not_in(slot_exclusions@),
        decreases all.len() - i,
    {
        let x = flat[i];
        assert(all.take(i + 1) == all.take(i as int).push(x));
        proof {
            all.take(i as int).lemma_filter_push(x, pred);
        }
        if !contains_slot(&slot_exclusions, x) {
            kept.push(x);
        }
        i = i + 1;
    }
    assert(all.take(all.len() as int) == all);
    kept
}

/// Key `i` of the layout with the slots where it may go.
fn key_loc_entry(i: usize) -> (entry: (Key, Vec<Slot>))
    requires
        i < KEY_CNT,
    ensures
        entry.0 == std_key(i as int),
        entry.1@ == entry_slots(i as int),
{
    if i == 0 {
        let locs = vec![(NUM_ROW, L_PINKY)];
        assert(locs@ =~= seq![(0usize, 0usize)]);
        let slots = make_slot_vec(&locs);
        assert(slots@ =~= seq![Slot { row: 0, col: 0 }]);
        (Key::from_tuple(ONE), slots)
    } else if i == 1 {
        let locs = vec![(NUM_ROW, L_RING)];
        assert(locs@ =~= seq![(0usize, 1usize)]);
        let slots = make_slot_vec(&locs);
        assert(slots@ =~= seq![Slot { row: 0, col: 1 }]);
        (Key::from_tuple(TWO), slots)
    } else if i == 2 {
        let locs = vec![(NUM_ROW, L_MIDDLE)];
        assert(locs@ =~= seq![(0usize, 2usize)]);
        let slots = make_slot_vec(&locs);
        assert(slots@ =~= seq![Slot { row: 0, col: 2 }]);
        (Key::from_tuple(THREE), slots)
    } else if i == 3 {
        let locs = vec![(NUM_ROW, L_INDEX)];
        assert(locs@ =~= seq![(0usize, 3usize)]);
        let slots = make_slot_vec(&locs);
        assert(slots@ =~= seq![Slot { row: 0, col: 3 }]);
        (Key::from_tuple(FOUR), slots)
    } else if i == 4 {
        let locs = vec![(NUM_ROW, L_EXT)];
        assert(locs@ =~= seq![(0usize, 4usize)]);
        let slots = make_slot_vec(&locs);
        assert(slots@ =~= seq![Slot { row: 0, col: 4 }]);
        (Key::from_tuple(FIVE), slots)
    } else if i == 5 {
        let locs = vec![(NUM_ROW, R_EXT)];
        assert(locs@ =~= seq![(0usize, 5usize)]);
        let slots = make_slot_vec(&locs);
        assert(slots@ =~= seq![Slot { row: 0, col: 5 }]);
        (Key::from_tuple(SIX), slots)
    } else if i == 6 {
        let locs = vec![(NUM_ROW, R_INDEX)];
        assert(locs@ =~= seq![(0usize, 6usize)]);
        let slots = make_slot_vec(&locs);
        assert(slots@ =~= seq![Slot { row: 0, col: 6 }]);
        (Key::from_tuple(SEVEN), slots)
    } else if i == 7 {
        let locs = vec![(NUM_ROW, R_MIDDLE)];
        assert(locs@ =~= seq![(0usize, 7usize)]);
        let slots = make_slot_vec(&locs);
        assert(slots@ =~= seq![Slot { row: 0, col: 7 }]);
        (Key::from_tuple(EIGHT), slots)
    } else if i == 8 {
        let locs = vec![(NUM_ROW, R_RING)];
        assert(locs@ =~= seq![(0usize, 8usize)]);
        let slots = make_slot_vec(&locs);
        assert(slots@ =~= seq![Slot { row: 0, col: 8 }]);
        (Key::from_tuple(NINE), slots)
    } else if i == 9 {
        let locs = vec![(NUM_ROW, R_PINKY)];
        assert(locs@ =~= seq![(0usize, 9usize)]);
        let slots = make_slot_vec(&locs);
        assert(slots@ =~= seq![Slot { row: 0, col: 9 }]);
        (Key::from_tuple(ZERO), slots)
    } else if i == 10 {
        let locs = vec![(NUM_ROW, R_SYMBOL)];
        assert(locs@ =~= seq![(0usize, 10usize)]);
        let slots = make_slot_vec(&locs);
        assert(slots@ =~= seq![Slot { row: 0, col: 10 }]);
        (Key::from_tuple(L_BRACKET), slots)
    } else if i == 11 {
        let locs = vec![(NUM_ROW, R_NETHER)];
        assert(locs@ =~= seq![(0usize, 11usize)]);
        let slots = make_slot_vec(&locs);
        assert(slots@ =~= seq![Slot { row: 0, col: 11 }]);
        (Key::from_tuple(R_BRACKET), slots)
    } else if i == 12 {
        let locs = vec![(TOP_ROW, R_SYMBOL)];
        assert(locs@ =~= seq![(1usize, 10usize)]);
        let slots = make_slot_vec(&locs);
        assert(slots@ =~= seq![Slot { row: 1, col: 10 }]);
        (Key::from_tuple(DASH), slots)
    } else if i == 13 {
        let locs = vec![(TOP_ROW, R_NETHER)];
        assert(locs@ =~= seq![(1usize, 11usize)]);
        let slots = make_slot_vec(&locs);
        assert(slots@ =~= seq![Slot { row: 1, col: 11 }]);
        (Key::from_tuple(EQUALS), slots)
    } else if i == 14 {
        let locs = vec![(HOME_ROW, R_SYMBOL)];
        assert(locs@ =~= seq![(2usize, 10usize)]);
        let slots = make_slot_vec(&locs);
        assert(slots@ =~= seq![Slot { row: 2, col: 10 }]);
        (Key::from_tuple(F_SLASH), slots)
    } else if i == 15 {
        let locs = vec![(TOP_ROW, R_PIPE)];
        assert(locs@ =~= seq![(1usize, 12usize)]);
        let slots = make_slot_vec(&locs);
        assert(slots@ =~= seq![Slot { row: 1, col: 12 }]);
        (Key::from_tuple(BACKSLASH), slots)
    } else if i == 16 {
        let locs = vec![(HOME_ROW, R_NETHER)];
        assert(locs@ =~= seq![(2usize, 11usize)]);
        let slots = make_slot_vec(&locs);
        assert(slots@ =~= seq![Slot { row: 2, col: 11 }]);
        (Key::from_tuple(NEWLINE), slots)
    } else if i == 17 {
        let exclusions = vec![(TOP_ROW, R_PINKY), (HOME_ROW, R_PINKY), (BOT_ROW, R_PINKY), (TOP_ROW, R_MIDDLE), (HOME_ROW, R_MIDDLE), (BOT_ROW, R_MIDDLE)];
        assert(exclusions@ =~= entry_exclusions(17));
        (Key::from_tuple(COMMA), alpha_slots_tree(&exclusions))
    } else if i == 18 {
        let exclusions = vec![(TOP_ROW, L_PINKY), (HOME_ROW, L_PINKY), (BOT_ROW, L_PINKY), (TOP_ROW, R_RING), (HOME_ROW, R_RING), (BOT_ROW, R_RING)];
        assert(exclusions@ =~= entry_exclusions(18));
        (Key::from_tuple(PERIOD), alpha_slots_tree(&exclusions))
    } else if i == 19 {
        let exclusions = vec![(TOP_ROW, R_PINKY), (HOME_ROW, R_PINKY), (BOT_ROW, R_PINKY)];
        assert(exclusions@ =~= entry_exclusions(19));
        (Key::from_tuple(SEMICOLON), alpha_slots_tree(&exclusions))
    } else if i == 20 {
        let exclusions = vec![(TOP_ROW, R_PINKY), (HOME_ROW, R_PINKY), (BOT_ROW, R_PINKY)];
        assert(exclusions@ =~= entry_exclusions(20));
        (Key::from_tuple(QUOTE), alpha_slots_tree(&exclusions))
    } else if i == 21 {
        let exclusions = vec![(TOP_ROW, L_PINKY), (HOME_ROW, L_PINKY), (BOT_ROW, L_PINKY)];
        assert(exclusions@ =~= entry_exclusions(21));
        (Key::from_tuple(A), alpha_slots_tree(&exclusions))
    } else if i == 22 {
        let exclusions = vec![(TOP_ROW, L_EXT), (HOME_ROW, L_EXT), (BOT_ROW, L_EXT)];
        assert(exclusions@ =~= entry_exclusions(22));
        (Key::from_tuple(B), alpha_slots_tree(&exclusions))
    } else if i == 23 {
        let exclusions = vec![(TOP_ROW, L_MIDDLE), (HOME_ROW, L_MIDDLE), (BOT_ROW, L_MIDDLE)];
        assert(exclusions@ =~= entry_exclusions(23));
        (Key::from_tuple(C), alpha_slots_tree(&exclusions))
    } else if i == 24 {
        let exclusions = vec![(TOP_ROW, L_MIDDLE), (HOME_ROW, L_MIDDLE), (BOT_ROW, L_MIDDLE)];
        assert(exclusions@ =~= entry_exclusions(24));
        (Key::from_tuple(D), alpha_slots_tree(&exclusions))
    } else if i == 25 {
        let exclusions = vec![(TOP_ROW, L_MIDDLE), (HOME_ROW, L_MIDDLE), (BOT_ROW, L_MIDDLE)];
        assert(exclusions@ =~= entry_exclusions(25));
        (Key::from_tuple(E), alpha_slots_tree(&exclusions))
    } else if i == 26 {
        let exclusions = vec![(TOP_ROW, L_INDEX), (HOME_ROW, L_INDEX), (BOT_ROW, L_INDEX)];
        assert(exclusions@ =~= entry_exclusions(26));
        (Key::from_tuple(F), alpha_slots_tree(&exclusions))
    } else if i == 27 {
        let exclusions = vec![(TOP_ROW, L_EXT), (HOME_ROW, L_EXT), (BOT_ROW, L_EXT)];
        assert(exclusions@ =~= entry_exclusions(27));
        (Key::from_tuple(G), alpha_slots_tree(&exclusions))
    } else if i == 28 {
        let exclusions = vec![(TOP_ROW, R_EXT), (HOME_ROW, R_EXT), (BOT_ROW, R_EXT)];
        assert(exclusions@ =~= entry_exclusions(28));
        (Key::from_tuple(H), alpha_slots_tree(&exclusions))
    } else if i == 29 {
        let exclusions = vec![(TOP_ROW, R_MIDDLE), (HOME_ROW, R_MIDDLE), (BOT_ROW, R_MIDDLE)];
        assert(exclusions@ =~= entry_exclusions(29));
        (Key::from_tuple(I), alpha_slots_tree(&exclusions))
    } else if i == 30 {
        let exclusions = vec![(TOP_ROW, R_INDEX), (HOME_ROW, R_INDEX), (BOT_ROW, R_INDEX)];
        assert(exclusions@ =~= entry_exclusions(30));
        (Key::from_tuple(J), alpha_slots_tree(&exclusions))
    } else if i == 31 {
        let exclusions = vec![(TOP_ROW, R_MIDDLE), (HOME_ROW, R_MIDDLE), (BOT_ROW, R_MIDDLE)];
        assert(exclusions@ =~= entry_exclusions(31));
        (Key::from_tuple(K), alpha_slots_tree(&exclusions))
    } else if i == 32 {
        let exclusions = vec![(TOP_ROW, R_RING), (HOME_ROW, R_RING), (BOT_ROW, R_RING)];
        assert(exclusions@ =~= entry_exclusions(32));
        (Key::from_tuple(L), alpha_slots_tree(&exclusions))
    } else if i == 33 {
        let exclusions = vec![(TOP_ROW, R_INDEX), (HOME_ROW, R_INDEX), (BOT_ROW, R_INDEX)];
        assert(exclusions@ =~= entry_exclusions(33));
        (Key::from_tuple(M), alpha_slots_tree(&exclusions))
    } else if i == 34 {
        let exclusions = vec![(TOP_ROW, R_EXT), (HOME_ROW, R_EXT), (BOT_ROW, R_EXT)];
        assert(exclusions@ =~= entry_exclusions(34));
        (Key::from_tuple(N), alpha_slots_tree(&exclusions))
    } else if i == 35 {
        let exclusions = vec![(TOP_ROW, R_RING), (HOME_ROW, R_RING), (BOT_ROW, R_RING)];
        assert(exclusions@ =~= entry_exclusions(35));
        (Key::from_tuple(O), alpha_slots_tree(&exclusions))
    } else if i == 36 {
        let exclusions = vec![(TOP_ROW, R_PINKY), (HOME_ROW, R_PINKY), (BOT_ROW, R_PINKY)];
        assert(exclusions@ =~= entry_exclusions(36));
        (Key::from_tuple(P), alpha_slots_tree(&exclusions))
    } else if i == 37 {
        let exclusions = vec![(TOP_ROW, L_PINKY), (HOME_ROW, L_PINKY), (BOT_ROW, L_PINKY)];
        assert(exclusions@ =~= entry_exclusions(37));
        (Key::from_tuple(Q), alpha_slots_tree(&exclusions))
    } else if i == 38 {
        let exclusions = vec![(TOP_ROW, L_INDEX), (HOME_ROW, L_INDEX), (BOT_ROW, L_INDEX)];
        assert(exclusions@ =~= entry_exclusions(38));
        (Key::from_tuple(R), alpha_slots_tree(&exclusions))
    } else if i == 39 {
        let exclusions = vec![(TOP_ROW, L_RING), (HOME_ROW, L_RING), (BOT_ROW, L_RING)];
        assert(exclusions@ =~= entry_exclusions(39));
        (Key::from_tuple(S), alpha_slots_tree(&exclusions))
    } else if i == 40 {
        let exclusions = vec![(TOP_ROW, L_EXT), (HOME_ROW, L_EXT), (BOT_ROW, L_EXT)];
        assert(exclusions@ =~= entry_exclusions(40));
        (Key::from_tuple(T), alpha_slots_tree(&exclusions))
    } else if i == 41 {
        let exclusions = vec![(TOP_ROW, R_INDEX), (HOME_ROW, R_INDEX), (BOT_ROW, R_INDEX)];
        assert(exclusions@ =~= entry_exclusions(41));
        (Key::from_tuple(U), alpha_slots_tree(&exclusions))
    } else if i == 42 {
        let exclusions = vec![(TOP_ROW, L_INDEX), (HOME_ROW, L_INDEX), (BOT_ROW, L_INDEX)];
        assert(exclusions@ =~= entry_exclusions(42));
        (Key::from_tuple(V), alpha_slots_tree(&exclusions))
    } else if i == 43 {
        let exclusions = vec![(TOP_ROW, L_RING), (HOME_ROW, L_RING), (BOT_ROW, L_RING)];
        assert(exclusions@ =~= entry_exclusions(43));
        (Key::from_tuple(W), alpha_slots_tree(&exclusions))
    } else if i == 44 {
        let exclusions = vec![(TOP_ROW, L_RING), (HOME_ROW, L_RING), (BOT_ROW, L_RING)];
        assert(exclusions@ =~= entry_exclusions(44));
        (Key::from_tuple(X), alpha_slots_tree(&exclusions))
    } else if i == 45 {
        let exclusions = vec![(TOP_ROW, R_EXT), (HOME_ROW, R_EXT), (BOT_ROW, R_EXT)];
        assert(exclusions@ =~= entry_exclusions(45));
        (Key::from_tuple(Y), alpha_slots_tree(&exclusions))
    } else if i == 46 {
        let exclusions = vec![(TOP_ROW, L_PINKY), (HOME_ROW, L_PINKY), (BOT_ROW, L_PINKY)];
        assert(exclusions@ =~= entry_exclusions(46));
        (Key::from_tuple(Z), alpha_slots_tree(&exclusions))
    } else {
        let exclusions = vec![(TOP_ROW, R_PINKY), (HOME_ROW, R_PINKY), (BOT_ROW, R_PINKY)];
        assert(exclusions@ =~= entry_exclusions(46));
        (Key::from_tuple(Z), alpha_slots_tree(&exclusions))
    }
}

/// Orders the entries by slot count, keeping the order of entries with equal
/// counts (an insertion sort).
#[verifier::rlimit(40)]
fn sort_by_slot_count(key_locs: Vec<(Key, Vec<Slot>)>, Ghost(input): Ghost<Seq<(Key, Seq<Slot>)>>) -> (sorted: Vec<(Key, Vec<Slot>)>)
    requires
        key_locs@.len() == input.len(),
        forall|i: int|
            0 <= i < input.len() ==> (#[trigger] key_locs@[i]).0 == input[i].0 && key_locs@[i].1@
                == input[i].1,
    ensures
        is_stable_sort(input, sorted@),
{
    let mut rest = key_locs;
    let mut out: Vec<(Key, Vec<Slot>)> = Vec::new();
    let ghost mut perm: Seq<int> = Seq::empty();
    let n = rest.len();
    let mut i: usize = 0;
    while i < n
        invariant
            n == input.len(),
            i <= n,
            rest@.len() == n - i,
            forall|j: int|
                0 <= j < rest@.len() ==> (#[trigger] rest@[j]).0 == input[i + j].0 && rest@[j].1@
                    == input[i + j].1,
            out@.len() == i,
            perm.len() == i,
            forall|k: int|
                0 <= k < perm.len() ==> 0 <= #[trigger] perm[k] < i && out@[k].0 == input[perm[k]].0
                    && out@[k].1@ == input[perm[k]].1,
            forall|k1: int, k2: int|
                0 <= k1 < perm.len() && 0 <= k2 < perm.len() && k1 != k2 ==> #[trigger] perm[k1]
                    != #[trigger] perm[k2],
            forall|k1: int, k2: int|
                0 <= k1 < k2 < out@.len() ==> #[trigger] out@[k1].1@.len() <= #[trigger] out@[k2].1@.len(),
            forall|k1: int, k2: int|
                0 <= k1 < k2 < out@.len() && out@[k1].1@.len() == out@[k2].1@.len() ==> #[trigger] perm[k1]
                    < #[trigger] perm[k2],
        decreases n - i,
    {
        let ghost old_out = out@;
        let ghost old_perm = perm;
        let ghost old_rest = rest@;
        let e = rest.remove(0);
        assert(e == old_rest[0]);
        assert forall|j: int| 0 <= j < rest@.len() implies (#[trigger] rest@[j]).0 == input[i + 1
            + j].0 && rest@[j].1@ == input[i + 1 + j].1 by {
            assert(rest@[j] == old_rest[j + 1]);
        }
        let c = e.1.len();
        let mut pos: usize = 0;
        while pos < out.len() && out[pos].1.len() <= c
            invariant
                pos <= out@.len(),
                out@ == old_out,
                forall|k: int| 0 <= k < pos ==> (#[trigger] out@[k]).1@.len() <= c,
            decreases out@.len() - pos,
        {
            pos = pos + 1;
        }
        proof {
            assert forall|k: int| pos <= k < old_out.len() implies (#[trigger] old_out[k]).1@.len()
                > c by {
                assert(old_out[pos as int].1@.len() > c);
                if k > pos {
                    assert(old_out[pos as int].1@.len() <= old_out[k].1@.len());
                }
            }
        }
        out.insert(pos, e);
        proof {
            perm = old_perm.insert(pos as int, i as int);
            old_out.insert_ensures(pos as int, e);
            old_perm.insert_ensures(pos as int, i as int);
            assert forall|k: int| 0 <= k < perm.len() implies 0 <= #[trigger] perm[k] < i + 1
                && out@[k].0 == input[perm[k]].0 && out@[k].1@ == input[perm[k]].1 by {
                if k < pos {
                    assert(perm[k] == old_perm[k]);
                } else if k > pos {
                    assert(perm[k] == old_perm[k - 1]);
                }
            }
            assert forall|k1: int, k2: int|
                0 <= k1 < perm.len() && 0 <= k2 < perm.len() && k1 != k2 implies #[trigger] perm[k1]
                    != #[trigger] perm[k2] by {
                if k1 != pos && k2 != pos {
                    let o1 = if k1 < pos { k1 } else { k1 - 1 };
                    let o2 = if k2 < pos { k2 } else { k2 - 1 };
                    assert(perm[k1] == old_perm[o1]);
                    assert(perm[k2] == old_perm[o2]);
                } else if k1 == pos {
                    let o2 = if k2 < pos { k2 } else { k2 - 1 };
                    assert(perm[k2] == old_perm[o2]);
                } else {
                    let o1 = if k1 < pos { k1 } else { k1 - 1 };
                    assert(perm[k1] == old_perm[o1]);
                }
            }
            assert forall|k1: int, k2: int| 0 <= k1 < k2 < out@.len() implies #[trigger] out@[k1].1@.len()
                <= #[trigger] out@[k2].1@.len() by {
                let o1 = if k1 < pos { k1 } else { k1 - 1 };
                let o2 = if k2 < pos { k2 } else { k2 - 1 };
                if k1 != pos && k2 != pos {
                    assert(out@[k1] == old_out[o1]);
                    assert(out@[k2] == old_out[o2]);
                } else if k1 == pos {
                    assert(out@[k2] == old_out[o2]);
                } else {
                    assert(out@[k1] == old_out[o1]);
                }
            }
            assert forall|k1: int, k2: int|
                0 <= k1 < k2 < out@.len() && out@[k1].1@.len() == out@[k2].1@.len() implies #[trigger] perm[k1]
                    < #[trigger] perm[k2] by {
                let o1 = if k1 < pos { k1 } else { k1 - 1 };
                let o2 = if k2 < pos { k2 } else { k2 - 1 };
                if k1 != pos && k2 != pos {
                    assert(out@[k1] == old_out[o1]);
                    assert(out@[k2] == old_out[o2]);
                    assert(perm[k1] == old_perm[o1]);
                    assert(perm[k2] == old_perm[o2]);
                } else if k1 == pos {
                    assert(out@[k2] == old_out[o2]);
                } else {
                    assert(out@[k1] == old_out[o1]);
                    assert(perm[k1] == old_perm[o1]);
                }
            }
        }
        i = i + 1;
    }
    assert(is_stable_sort_perm(input, out@, perm));
    out
}

/// Each key of the layout with the slots where it may go, ordered so that
/// the keys with the fewest slots come first (keys with as many slots keep
/// their listed order).
pub fn get_valid_key_locs_sorted() -> (key_locs: Vec<(Key, Vec<Slot>)>)
    ensures
        is_stable_sort(spec_key_locs(), key_locs@),
{
    let mut key_locs: Vec<(Key, Vec<Slot>)> = Vec::new();
    let mut i: usize = 0;
    while i < KEY_CNT
        invariant
            i <= KEY_CNT,
            key_locs@.len() == i,
            forall|j: int|
                0 <= j < i ==> (#[trigger] key_locs@[j]).0 == spec_key_locs()[j].0
                    && key_locs@[j].1@ == spec_key_locs()[j].1,
        decreases KEY_CNT - i,
    {
        let entry = key_loc_entry(i);
        key_locs.push(entry);
        i = i + 1;
    }
    sort_by_slot_count(key_locs, Ghost(spec_key_locs()))
}


// ---------------------------------------------------------------------------
// Facts about the layout's keys and slots
// ---------------------------------------------------------------------------

/// The slots of the keyboard: twelve in the number row, thirteen in the top
/// row, twelve in the home row and ten in the bottom row.
pub open spec fn layout_slot(s: Slot) -> bool {
    ||| s.row == NUM_ROW && s.col <= 11
    ||| s.row == TOP_ROW && s.col <= 12
    ||| s.row == HOME_ROW && s.col <= 11
    ||| s.row == BOT_ROW && s.col <= 9
}

pub open spec fn layout_slot_at(i: int) -> Slot {
    if i < 12 {
        Slot { row: 0, col: i as usize }
    } else if i < 25 {
        Slot { row: 1, col: (i - 12) as usize }
    } else if i < 37 {
        Slot { row: 2, col: (i - 25) as usize }
    } else {
        Slot { row: 3, col: (i - 37) as usize }
    }
}

/// The position of a slot of the keyboard in row order; inverse of
/// `layout_slot_at`.
pub open spec fn layout_index(s: Slot) -> int {
    if s.row == 0 {
        s.col as int
    } else if s.row == 1 {
        12 + s.col
    } else if s.row == 2 {
        25 + s.col
    } else {
        37 + s.col
    }
}

pub proof fn lemma_layout_index(s: Slot)
    requires
        layout_slot(s),
    ensures
        0 <= layout_index(s) < KEY_CNT,
        layout_slot_at(layout_index(s)) == s,
{
}

/// The slots of the keyboard in row order.
pub open spec fn layout_seq() -> Seq<Slot> {
    Seq::new(KEY_CNT as nat, |i: int| layout_slot_at(i))
}

pub open spec fn layout_set() -> Set<Slot> {
    Set::new(|s: Slot| layout_slot(s))
}

/// The keyboard has exactly as many slots as the layout has keys.
pub proof fn lemma_layout_set()
    ensures
        layout_set().finite(),
        layout_set().len() == KEY_CNT,
        layout_seq().to_set() == layout_set(),
        layout_seq().no_duplicates(),
{
    let sq = layout_seq();
    assert forall|i: int, j: int| 0 <= i < sq.len() && 0 <= j < sq.len() && i != j implies sq[i]
        != sq[j] by {}
    assert(sq.no_duplicates());
    assert forall|s: Slot| #[trigger] layout_set().contains(s) implies sq.to_set().contains(s) by {
        let i: int = if s.row == 0 {
            s.col as int
        } else if s.row == 1 {
            12 + s.col
        } else if s.row == 2 {
            25 + s.col
        } else {
            37 + s.col
        };
        assert(sq[i] == s);
    }
    assert(sq.to_set() =~= layout_set());
    sq.unique_seq_to_set();
}

/// Every slot that a key's list names is a slot of the keyboard.
pub proof fn lemma_entry_slots_in_layout(i: int, s: Slot)
    requires
        0 <= i < KEY_CNT,
        entry_slots(i).contains(s),
    ensures
        layout_slot(s),
        i >= STATIC_CNT ==> alpha_slot(s),
        i < STATIC_CNT ==> entry_slots(i).len() == 1,
{
    if i >= STATIC_CNT {
        let pred = not_in(slots_of(entry_exclusions(i)));
        let k = choose|k: int| 0 <= k < entry_slots(i).len() && entry_slots(i)[k] == s;
        spec_alpha_all().lemma_filter_pred(pred, k);
        assert(spec_alpha_all().filter(pred).contains(s));
        spec_alpha_all().lemma_filter_contains_rev(pred, s);
        let j = choose|j: int| 0 <= j < spec_alpha_all().len() && spec_alpha_all()[j] == s;
        assert(spec_alpha_all()[j].row >= 1 && spec_alpha_all()[j].row <= 3 && spec_alpha_all()[j].col
            <= 9) by {
            if j < 10 {
            } else if j < 20 {
            } else {
            }
        }
    }
}

/// The index of the key that types `c`, or -1 when no key of the layout
/// types it.
pub open spec fn char_owner(c: u8) -> int {
    if c == ONE.0 || c == ONE.1 {
        0
    } else if c == TWO.0 || c == TWO.1 {
        1
    } else if c == THREE.0 || c == THREE.1 {
        2
    } else if c == FOUR.0 || c == FOUR.1 {
        3
    } else if c == FIVE.0 || c == FIVE.1 {
        4
    } else if c == SIX.0 || c == SIX.1 {
        5
    } else if c == SEVEN.0 || c == SEVEN.1 {
        6
    } else if c == EIGHT.0 || c == EIGHT.1 {
        7
    } else if c == NINE.0 || c == NINE.1 {
        8
    } else if c == ZERO.0 || c == ZERO.1 {
        9
    } else if c == L_BRACKET.0 || c == L_BRACKET.1 {
        10
    } else if c == R_BRACKET.0 || c == R_BRACKET.1 {
        11
    } else if c == DASH.0 || c == DASH.1 {
        12
    } else if c == EQUALS.0 || c == EQUALS.1 {
        13
    } else if c == F_SLASH.0 || c == F_SLASH.1 {
        14
    } else if c == BACKSLASH.0 || c == BACKSLASH.1 {
        15
    } else if c == NEWLINE.0 || c == NEWLINE.1 {
        16
    } else if c == COMMA.0 || c == COMMA.1 {
        17
    } else if c == PERIOD.0 || c == PERIOD.1 {
        18
    } else if c == SEMICOLON.0 || c == SEMICOLON.1 {
        19
    } else if c == QUOTE.0 || c == QUOTE.1 {
        20
    } else if c == A.0 || c == A.1 {
        21
    } else if c == B.0 || c == B.1 {
        22
    } else if c == C.0 || c == C.1 {
        23
    } else if c == D.0 || c == D.1 {
        24
    } else if c == E.0 || c == E.1 {
        25
    } else if c == F.0 || c == F.1 {
        26
    } else if c == G.0 || c == G.1 {
        27
    } else if c == H.0 || c == H.1 {
        28
    } else if c == I.0 || c == I.1 {
        29
    } else if c == J.0 || c == J.1 {
        30
    } else if c == K.0 || c == K.1 {
        31
    } else if c == L.0 || c == L.1 {
        32
    } else if c == M.0 || c == M.1 {
        33
    } else if c == N.0 || c == N.1 {
        34
    } else if c == O.0 || c == O.1 {
        35
    } else if c == P.0 || c == P.1 {
        36
    } else if c == Q.0 || c == Q.1 {
        37
    } else if c == R.0 || c == R.1 {
        38
    } else if c == S.0 || c == S.1 {
        39
    } else if c == T.0 || c == T.1 {
        40
    } else if c == U.0 || c == U.1 {
        41
    } else if c == V.0 || c == V.1 {
        42
    } else if c == W.0 || c == W.1 {
        43
    } else if c == X.0 || c == X.1 {
        44
    } else if c == Y.0 || c == Y.1 {
        45
    } else if c == Z.0 || c == Z.1 {
        46
    } else {
        -1
    }
}

/// Each key of the layout types ASCII characters that no other key types.
pub proof fn lemma_std_key_chars(i: int)
    requires
        0 <= i < KEY_CNT,
    ensures
        char_owner(std_key(i).base) == i,
        char_owner(std_key(i).shift) == i,
        (std_key(i).base as int) < 128,
        (std_key(i).shift as int) < 128,
{
}

/// A slot for each key, used to show that all keys can be placed: the key's
/// own slot for a static key; for an alpha key, the slot right of its
/// QWERTY slot in the same row (wrapping from the right pinky to the left).
pub open spec fn witness(i: int) -> Slot {
    if i == 0 {
        Slot { row: 0, col: 0 }
    } else if i == 1 {
        Slot { row: 0, col: 1 }
    } else if i == 2 {
        Slot { row: 0, col: 2 }
    } else if i == 3 {
        Slot { row: 0, col: 3 }
    } else if i == 4 {
        Slot { row: 0, col: 4 }
    } else if i == 5 {
        Slot { row: 0, col: 5 }
    } else if i == 6 {
        Slot { row: 0, col: 6 }
    } else if i == 7 {
        Slot { row: 0, col: 7 }
    } else if i == 8 {
        Slot { row: 0, col: 8 }
    } else if i == 9 {
        Slot { row: 0, col: 9 }
    } else if i == 10 {
        Slot { row: 0, col: 10 }
    } else if i == 11 {
        Slot { row: 0, col: 11 }
    } else if i == 12 {
        Slot { row: 1, col: 10 }
    } else if i == 13 {
        Slot { row: 1, col: 11 }
    } else if i == 14 {
        Slot { row: 2, col: 10 }
    } else if i == 15 {
        Slot { row: 1, col: 12 }
    } else if i == 16 {
        Slot { row: 2, col: 11 }
    } else if i == 17 {
        Slot { row: 3, col: 8 }
    } else if i == 18 {
        Slot { row: 3, col: 9 }
    } else if i == 19 {
        Slot { row: 2, col: 0 }
    } else if i == 20 {
        Slot { row: 3, col: 0 }
    } else if i == 21 {
        Slot { row: 2, col: 1 }
    } else if i == 22 {
        Slot { row: 3, col: 5 }
    } else if i == 23 {
        Slot { row: 3, col: 3 }
    } else if i == 24 {
        Slot { row: 2, col: 3 }
    } else if i == 25 {
        Slot { row: 1, col: 3 }
    } else if i == 26 {
        Slot { row: 2, col: 4 }
    } else if i == 27 {
        Slot { row: 2, col: 5 }
    } else if i == 28 {
        Slot { row: 2, col: 6 }
    } else if i == 29 {
        Slot { row: 1, col: 8 }
    } else if i == 30 {
        Slot { row: 2, col: 7 }
    } else if i == 31 {
        Slot { row: 2, col: 8 }
    } else if i == 32 {
        Slot { row: 2, col: 9 }
    } else if i == 33 {
        Slot { row: 3, col: 7 }
    } else if i == 34 {
        Slot { row: 3, col: 6 }
    } else if i == 35 {
        Slot { row: 1, col: 9 }
    } else if i == 36 {
        Slot { row: 1, col: 0 }
    } else if i == 37 {
        Slot { row: 1, col: 1 }
    } else if i == 38 {
        Slot { row: 1, col: 4 }
    } else if i == 39 {
        Slot { row: 2, col: 2 }
    } else if i == 40 {
        Slot { row: 1, col: 5 }
    } else if i == 41 {
        Slot { row: 1, col: 7 }
    } else if i == 42 {
        Slot { row: 3, col: 4 }
    } else if i == 43 {
        Slot { row: 1, col: 2 }
    } else if i == 44 {
        Slot { row: 3, col: 2 }
    } else if i == 45 {
        Slot { row: 1, col: 6 }
    } else if i == 46 {
        Slot { row: 3, col: 1 }
    } else {
        Slot { row: 0, col: 0 }
    }
}

pub open spec fn witness_owner(s: Slot) -> int {
    if s.row == 0 && s.col == 0 {
        0
    } else if s.row == 0 && s.col == 1 {
        1
    } else if s.row == 0 && s.col == 2 {
        2
    } else if s.row == 0 && s.col == 3 {
        3
    } else if s.row == 0 && s.col == 4 {
        4
    } else if s.row == 0 && s.col == 5 {
        5
    } else if s.row == 0 && s.col == 6 {
        6
    } else if s.row == 0 && s.col == 7 {
        7
    } else if s.row == 0 && s.col == 8 {
        8
    } else if s.row == 0 && s.col == 9 {
        9
    } else if s.row == 0 && s.col == 10 {
        10
    } else if s.row == 0 && s.col == 11 {
        11
    } else if s.row == 1 && s.col == 10 {
        12
    } else if s.row == 1 && s.col == 11 {
        13
    } else if s.row == 2 && s.col == 10 {
        14
    } else if s.row == 1 && s.col == 12 {
        15
    } else if s.row == 2 && s.col == 11 {
        16
    } else if s.row == 3 && s.col == 8 {
        17
    } else if s.row == 3 && s.col == 9 {
        18
    } else if s.row == 2 && s.col == 0 {
        19
    } else if s.row == 3 && s.col == 0 {
        20
    } else if s.row == 2 && s.col == 1 {
        21
    } else if s.row == 3 && s.col == 5 {
        22
    } else if s.row == 3 && s.col == 3 {
        23
    } else if s.row == 2 && s.col == 3 {
        24
    } else if s.row == 1 && s.col == 3 {
        25
    } else if s.row == 2 && s.col == 4 {
        26
    } else if s.row == 2 && s.col == 5 {
        27
    } else if s.row == 2 && s.col == 6 {
        28
    } else if s.row == 1 && s.col == 8 {
        29
    } else if s.row == 2 && s.col == 7 {
        30
    } else if s.row == 2 && s.col == 8 {
        31
    } else if s.row == 2 && s.col == 9 {
        32
    } else if s.row == 3 && s.col == 7 {
        33
    } else if s.row == 3 && s.col == 6 {
        34
    } else if s.row == 1 && s.col == 9 {
        35
    } else if s.row == 1 && s.col == 0 {
        36
    } else if s.row == 1 && s.col == 1 {
        37
    } else if s.row == 1 && s.col == 4 {
        38
    } else if s.row == 2 && s.col == 2 {
        39
    } else if s.row == 1 && s.col == 5 {
        40
    } else if s.row == 1 && s.col == 7 {
        41
    } else if s.row == 3 && s.col == 4 {
        42
    } else if s.row == 1 && s.col == 2 {
        43
    } else if s.row == 3 && s.col == 2 {
        44
    } else if s.row == 1 && s.col == 6 {
        45
    } else if s.row == 3 && s.col == 1 {
        46
    } else {
        -1
    }
}

pub proof fn lemma_witness(i: int)
    requires
        0 <= i < KEY_CNT,
    ensures
        entry_slots(i).contains(witness(i)),
        witness_owner(witness(i)) == i,
{
    if i < STATIC_CNT {
        assert(entry_slots(i)[0] == witness(i));
    } else {
        lemma_witness_alpha(i);
    }
}

proof fn lemma_witness_alpha(i: int)
    requires
        STATIC_CNT <= i < KEY_CNT,
    ensures
        entry_slots(i).contains(witness(i)),
{
    if i == 17 {
        let ex = slots_of(entry_exclusions(17));
        assert(ex =~= seq![Slot { row: 1, col: 9 }, Slot { row: 2, col: 9 }, Slot { row: 3, col: 9 }, Slot { row: 1, col: 7 }, Slot { row: 2, col: 7 }, Slot { row: 3, col: 7 }]);
        assert(spec_alpha_all()[28] == witness(17));
        assert(!ex.contains(witness(17)));
        spec_alpha_all().lemma_filter_contains(not_in(ex), 28);
    } else if i == 18 {
        let ex = slots_of(entry_exclusions(18));
        assert(ex =~= seq![Slot { row: 1, col: 0 }, Slot { row: 2, col: 0 }, Slot { row: 3, col: 0 }, Slot { row: 1, col: 8 }, Slot { row: 2, col: 8 }, Slot { row: 3, col: 8 }]);
        assert(spec_alpha_all()[29] == witness(18));
        assert(!ex.contains(witness(18)));
        spec_alpha_all().lemma_filter_contains(not_in(ex), 29);
    } else if i == 19 {
        let ex = slots_of(entry_exclusions(19));
        assert(ex =~= seq![Slot { row: 1, col: 9 }, Slot { row: 2, col: 9 }, Slot { row: 3, col: 9 }]);
        assert(spec_alpha_all()[10] == witness(19));
        assert(!ex.contains(witness(19)));
        spec_alpha_all().lemma_filter_contains(not_in(ex), 10);
    } else if i == 20 {
        let ex = slots_of(entry_exclusions(20));
        assert(ex =~= seq![Slot { row: 1, col: 9 }, Slot { row: 2, col: 9 }, Slot { row: 3, col: 9 }]);
        assert(spec_alpha_all()[20] == witness(20));
        assert(!ex.contains(witness(20)));
        spec_alpha_all().lemma_filter_contains(not_in(ex), 20);
    } else if i == 21 {
        let ex = slots_of(entry_exclusions(21));
        assert(ex =~= seq![Slot { row: 1, col: 0 }, Slot { row: 2, col: 0 }, Slot { row: 3, col: 0 }]);
        assert(spec_alpha_all()[11] == witness(21));
        assert(!ex.contains(witness(21)));
        spec_alpha_all().lemma_filter_contains(not_in(ex), 11);
    } else if i == 22 {
        let ex = slots_of(entry_exclusions(22));
        assert(ex =~= seq![Slot { row: 1, col: 4 }, Slot { row: 2, col: 4 }, Slot { row: 3, col: 4 }]);
        assert(spec_alpha_all()[25] == witness(22));
        assert(!ex.contains(witness(22)));
        spec_alpha_all().lemma_filter_contains(not_in(ex), 25);
    } else if i == 23 {
        let ex = slots_of(entry_exclusions(23));
        assert(ex =~= seq![Slot { row: 1, col: 2 }, Slot { row: 2, col: 2 }, Slot { row: 3, col: 2 }]);
        assert(spec_alpha_all()[23] == witness(23));
        assert(!ex.contains(witness(23)));
        spec_alpha_all().lemma_filter_contains(not_in(ex), 23);
    } else if i == 24 {
        let ex = slots_of(entry_exclusions(24));
        assert(ex =~= seq![Slot { row: 1, col: 2 }, Slot { row: 2, col: 2 }, Slot { row: 3, col: 2 }]);
        assert(spec_alpha_all()[13] == witness(24));
        assert(!ex.contains(witness(24)));
        spec_alpha_all().lemma_filter_contains(not_in(ex), 13);
    } else if i == 25 {
        let ex = slots_of(entry_exclusions(25));
        assert(ex =~= seq![Slot { row: 1, col: 2 }, Slot { row: 2, col: 2 }, Slot { row: 3, col: 2 }]);
        assert(spec_alpha_all()[3] == witness(25));
        assert(!ex.contains(witness(25)));
        spec_alpha_all().lemma_filter_contains(not_in(ex), 3);
    } else if i == 26 {
        let ex = slots_of(entry_exclusions(26));
        assert(ex =~= seq![Slot { row: 1, col: 3 }, Slot { row: 2, col: 3 }, Slot { row: 3, col: 3 }]);
        assert(spec_alpha_all()[14] == witness(26));
        assert(!ex.contains(witness(26)));
        spec_alpha_all().lemma_filter_contains(not_in(ex), 14);
    } else if i == 27 {
        let ex = slots_of(entry_exclusions(27));
        assert(ex =~= seq![Slot { row: 1, col: 4 }, Slot { row: 2, col: 4 }, Slot { row: 3, col: 4 }]);
        assert(spec_alpha_all()[15] == witness(27));
        assert(!ex.contains(witness(27)));
        spec_alpha_all().lemma_filter_contains(not_in(ex), 15);
    } else if i == 28 {
        let ex = slots_of(entry_exclusions(28));
        assert(ex =~= seq![Slot { row: 1, col: 5 }, Slot { row: 2, col: 5 }, Slot { row: 3, col: 5 }]);
        assert(spec_alpha_all()[16] == witness(28));
        assert(!ex.contains(witness(28)));
        spec_alpha_all().lemma_filter_contains(not_in(ex), 16);
    } else if i == 29 {
        let ex = slots_of(entry_exclusions(29));
        assert(ex =~= seq![Slot { row: 1, col: 7 }, Slot { row: 2, col: 7 }, Slot { row: 3, col: 7 }]);
        assert(spec_alpha_all()[8] == witness(29));
        assert(!ex.contains(witness(29)));
        spec_alpha_all().lemma_filter_contains(not_in(ex), 8);
    } else if i == 30 {
        let ex = slots_of(entry_exclusions(30));
        assert(ex =~= seq![Slot { row: 1, col: 6 }, Slot { row: 2, col: 6 }, Slot { row: 3, col: 6 }]);
        assert(spec_alpha_all()[17] == witness(30));
        assert(!ex.contains(witness(30)));
        spec_alpha_all().lemma_filter_contains(not_in(ex), 17);
    } else if i == 31 {
        let ex = slots_of(entry_exclusions(31));
        assert(ex =~= seq![Slot { row: 1, col: 7 }, Slot { row: 2, col: 7 }, Slot { row: 3, col: 7 }]);
        assert(spec_alpha_all()[18] == witness(31));
        assert(!ex.contains(witness(31)));
        spec_alpha_all().lemma_filter_contains(not_in(ex), 18);
    } else if i == 32 {
        let ex = slots_of(entry_exclusions(32));
        assert(ex =~= seq![Slot { row: 1, col: 8 }, Slot { row: 2, col: 8 }, Slot { row: 3, col: 8 }]);
        assert(spec_alpha_all()[19] == witness(32));
        assert(!ex.contains(witness(32)));
        spec_alpha_all().lemma_filter_contains(not_in(ex), 19);
    } else if i == 33 {
        let ex = slots_of(entry_exclusions(33));
        assert(ex =~= seq![Slot { row: 1, col: 6 }, Slot { row: 2, col: 6 }, Slot { row: 3, col: 6 }]);
        assert(spec_alpha_all()[27] == witness(33));
        assert(!ex.contains(witness(33)));
        spec_alpha_all().lemma_filter_contains(not_in(ex), 27);
    } else if i == 34 {
        let ex = slots_of(entry_exclusions(34));
        assert(ex =~= seq![Slot { row: 1, col: 5 }, Slot { row: 2, col: 5 }, Slot { row: 3, col: 5 }]);
        assert(spec_alpha_all()[26] == witness(34));
        assert(!ex.contains(witness(34)));
        spec_alpha_all().lemma_filter_contains(not_in(ex), 26);
    } else if i == 35 {
        let ex = slots_of(entry_exclusions(35));
        assert(ex =~= seq![Slot { row: 1, col: 8 }, Slot { row: 2, col: 8 }, Slot { row: 3, col: 8 }]);
        assert(spec_alpha_all()[9] == witness(35));
        assert(!ex.contains(witness(35)));
        spec_alpha_all().lemma_filter_contains(not_in(ex), 9);
    } else if i == 36 {
        let ex = slots_of(entry_exclusions(36));
        assert(ex =~= seq![Slot { row: 1, col: 9 }, Slot { row: 2, col: 9 }, Slot { row: 3, col: 9 }]);
        assert(spec_alpha_all()[0] == witness(36));
        assert(!ex.contains(witness(36)));
        spec_alpha_all().lemma_filter_contains(not_in(ex), 0);
    } else if i == 37 {
        let ex = slots_of(entry_exclusions(37));
        assert(ex =~= seq![Slot { row: 1, col: 0 }, Slot { row: 2, col: 0 }, Slot { row: 3, col: 0 }]);
        assert(spec_alpha_all()[1] == witness(37));
        assert(!ex.contains(witness(37)));
        spec_alpha_all().lemma_filter_contains(not_in(ex), 1);
    } else if i == 38 {
        let ex = slots_of(entry_exclusions(38));
        assert(ex =~= seq![Slot { row: 1, col: 3 }, Slot { row: 2, col: 3 }, Slot { row: 3, col: 3 }]);
        assert(spec_alpha_all()[4] == witness(38));
        assert(!ex.contains(witness(38)));
        spec_alpha_all().lemma_filter_contains(not_in(ex), 4);
    } else if i == 39 {
        let ex = slots_of(entry_exclusions(39));
        assert(ex =~= seq![Slot { row: 1, col: 1 }, Slot { row: 2, col: 1 }, Slot { row: 3, col: 1 }]);
        assert(spec_alpha_all()[12] == witness(39));
        assert(!ex.contains(witness(39)));
        spec_alpha_all().lemma_filter_contains(not_in(ex), 12);
    } else if i == 40 {
        let ex = slots_of(entry_exclusions(40));
        assert(ex =~= seq![Slot { row: 1, col: 4 }, Slot { row: 2, col: 4 }, Slot { row: 3, col: 4 }]);
        assert(spec_alpha_all()[5] == witness(40));
        assert(!ex.contains(witness(40)));
        spec_alpha_all().lemma_filter_contains(not_in(ex), 5);
    } else if i == 41 {
        let ex = slots_of(entry_exclusions(41));
        assert(ex =~= seq![Slot { row: 1, col: 6 }, Slot { row: 2, col: 6 }, Slot { row: 3, col: 6 }]);
        assert(spec_alpha_all()[7] == witness(41));
        assert(!ex.contains(witness(41)));
        spec_alpha_all().lemma_filter_contains(not_in(ex), 7);
    } else if i == 42 {
        let ex = slots_of(entry_exclusions(42));
        assert(ex =~= seq![Slot { row: 1, col: 3 }, Slot { row: 2, col: 3 }, Slot { row: 3, col: 3 }]);
        assert(spec_alpha_all()[24] == witness(42));
        assert(!ex.contains(witness(42)));
        spec_alpha_all().lemma_filter_contains(not_in(ex), 24);
    } else if i == 43 {
        let ex = slots_of(entry_exclusions(43));
        assert(ex =~= seq![Slot { row: 1, col: 1 }, Slot { row: 2, col: 1 }, Slot { row: 3, col: 1 }]);
        assert(spec_alpha_all()[2] == witness(43));
        assert(!ex.contains(witness(43)));
        spec_alpha_all().lemma_filter_contains(not_in(ex), 2);
    } else if i == 44 {
        let ex = slots_of(entry_exclusions(44));
        assert(ex =~= seq![Slot { row: 1, col: 1 }, Slot { row: 2, col: 1 }, Slot { row: 3, col: 1 }]);
        assert(spec_alpha_all()[22] == witness(44));
        assert(!ex.contains(witness(44)));
        spec_alpha_all().lemma_filter_contains(not_in(ex), 22);
    } else if i == 45 {
        let ex = slots_of(entry_exclusions(45));
        assert(ex =~= seq![Slot { row: 1, col: 5 }, Slot { row: 2, col: 5 }, Slot { row: 3, col: 5 }]);
        assert(spec_alpha_all()[6] == witness(45));
        assert(!ex.contains(witness(45)));
        spec_alpha_all().lemma_filter_contains(not_in(ex), 6);
    } else if i == 46 {
        let ex = slots_of(entry_exclusions(46));
        assert(ex =~= seq![Slot { row: 1, col: 0 }, Slot { row: 2, col: 0 }, Slot { row: 3, col: 0 }]);
        assert(spec_alpha_all()[21] == witness(46));
        assert(!ex.contains(witness(46)));
        spec_alpha_all().lemma_filter_contains(not_in(ex), 21);
    }
}


} // verus!
verus! {

/// Applying a placement puts key `valid_slots[idx + j].0` in slot `a[j]`
/// and keeps every slot that `m` already filled.
pub proof fn lemma_apply_placement(
    m: Map<Slot, Key>,
    valid_slots: Seq<(Key, Vec<Slot>)>,
    idx: int,
    a: Seq<Slot>,
)
    requires
        is_placement(m, valid_slots, idx, a),
    ensures
        apply_placement(m, valid_slots, idx, a).dom() =~= m.dom().union(a.to_set()),
        forall|j: int|
            0 <= j < a.len() ==> apply_placement(m, valid_slots, idx, a)[#[trigger] a[j]]
                == valid_slots[idx + j].0,
        forall|s: Slot|
            #[trigger] m.dom().contains(s) ==> apply_placement(m, valid_slots, idx, a)[s] == m[s],
    decreases a.len(),
{
    if a.len() > 0 {
        let m2 = m.insert(a[0], valid_slots[idx].0);
        let rest = a.drop_first();
        assert forall|k: int| 0 <= k < rest.len() implies valid_slots[idx + 1 + k].1@.contains(
            #[trigger] rest[k],
        ) by {
            assert(rest[k] == a[k + 1]);
            assert(valid_slots[idx + (k + 1)].1@.contains(a[k + 1]));
        }
        assert forall|k: int| 0 <= k < rest.len() implies !m2.dom().contains(#[trigger] rest[k]) by {
            assert(rest[k] == a[k + 1]);
            assert(!m.dom().contains(a[k + 1]));
            assert(a[k + 1] != a[0]);
        }
        assert(is_placement(m2, valid_slots, idx + 1, rest));
        lemma_apply_placement(m2, valid_slots, idx + 1, rest);
        assert(a.to_set() =~= rest.to_set().insert(a[0])) by {
            assert forall|s: Slot| a.to_set().contains(s) implies rest.to_set().insert(a[0]).contains(
                s,
            ) by {
                let k = choose|k: int| 0 <= k < a.len() && a[k] == s;
                if k > 0 {
                    assert(rest[k - 1] == s);
                }
            }
            assert forall|s: Slot| rest.to_set().contains(s) implies a.to_set().contains(s) by {
                let k = choose|k: int| 0 <= k < rest.len() && rest[k] == s;
                assert(a[k + 1] == s);
            }
        }
        assert forall|j: int| 0 <= j < a.len() implies apply_placement(m, valid_slots, idx, a)[
            #[trigger] a[j]] == valid_slots[idx + j].0 by {
            if j > 0 {
                assert(a[j] == rest[j - 1]);
                assert(valid_slots[idx + 1 + (j - 1)].0 == valid_slots[idx + j].0);
            } else {
                assert(m2.dom().contains(a[0]));
            }
        }
        assert forall|s: Slot| #[trigger] m.dom().contains(s) implies apply_placement(
            m,
            valid_slots,
            idx,
            a,
        )[s] == m[s] by {
            assert(s != a[0]);
            assert(m2.dom().contains(s));
        }
    }
}

/// For each slot of the keyboard in row order (see `layout_slot_at`), the
/// index among the standard keys of the key that QWERTY puts there.
pub open spec fn qwerty_std(i: int) -> int {
    if i == 0 {
        0
    } else if i == 1 {
        1
    } else if i == 2 {
        2
    } else if i == 3 {
        3
    } else if i == 4 {
        4
    } else if i == 5 {
        5
    } else if i == 6 {
        6
    } else if i == 7 {
        7
    } else if i == 8 {
        8
    } else if i == 9 {
        9
    } else if i == 10 {
        12
    } else if i == 11 {
        13
    } else if i == 12 {
        37
    } else if i == 13 {
        43
    } else if i == 14 {
        25
    } else if i == 15 {
        38
    } else if i == 16 {
        40
    } else if i == 17 {
        45
    } else if i == 18 {
        41
    } else if i == 19 {
        29
    } else if i == 20 {
        35
    } else if i == 21 {
        36
    } else if i == 22 {
        10
    } else if i == 23 {
        11
    } else if i == 24 {
        15
    } else if i == 25 {
        21
    } else if i == 26 {
        39
    } else if i == 27 {
        24
    } else if i == 28 {
        26
    } else if i == 29 {
        27
    } else if i == 30 {
        28
    } else if i == 31 {
        30
    } else if i == 32 {
        31
    } else if i == 33 {
        32
    } else if i == 34 {
        19
    } else if i == 35 {
        20
    } else if i == 36 {
        16
    } else if i == 37 {
        46
    } else if i == 38 {
        44
    } else if i == 39 {
        23
    } else if i == 40 {
        42
    } else if i == 41 {
        22
    } else if i == 42 {
        34
    } else if i == 43 {
        33
    } else if i == 44 {
        17
    } else if i == 45 {
        18
    } else if i == 46 {
        14
    } else {
        -1
    }
}

/// The slot, in row order, where QWERTY puts each standard key.
pub open spec fn qwerty_pos(j: int) -> int {
    if j == 0 {
        0
    } else if j == 1 {
        1
    } else if j == 2 {
        2
    } else if j == 3 {
        3
    } else if j == 4 {
        4
    } else if j == 5 {
        5
    } else if j == 6 {
        6
    } else if j == 7 {
        7
    } else if j == 8 {
        8
    } else if j == 9 {
        9
    } else if j == 10 {
        22
    } else if j == 11 {
        23
    } else if j == 12 {
        10
    } else if j == 13 {
        11
    } else if j == 14 {
        46
    } else if j == 15 {
        24
    } else if j == 16 {
        36
    } else if j == 17 {
        44
    } else if j == 18 {
        45
    } else if j == 19 {
        34
    } else if j == 20 {
        35
    } else if j == 21 {
        25
    } else if j == 22 {
        41
    } else if j == 23 {
        39
    } else if j == 24 {
        27
    } else if j == 25 {
        14
    } else if j == 26 {
        28
    } else if j == 27 {
        29
    } else if j == 28 {
        30
    } else if j == 29 {
        19
    } else if j == 30 {
        31
    } else if j == 31 {
        32
    } else if j == 32 {
        33
    } else if j == 33 {
        43
    } else if j == 34 {
        42
    } else if j == 35 {
        20
    } else if j == 36 {
        21
    } else if j == 37 {
        12
    } else if j == 38 {
        15
    } else if j == 39 {
        26
    } else if j == 40 {
        16
    } else if j == 41 {
        18
    } else if j == 42 {
        40
    } else if j == 43 {
        13
    } else if j == 44 {
        38
    } else if j == 45 {
        17
    } else if j == 46 {
        37
    } else {
        -1
    }
}

/// The QWERTY layout.
pub open spec fn qwerty_layout() -> Map<Slot, Key> {
    Map::new(|s: Slot| layout_slot(s), |s: Slot| std_key(qwerty_std(layout_index(s))))
}

/// `qwerty_pos` undoes `qwerty_std`: no two slots get the same key.
pub proof fn lemma_qwerty_perm(i: int)
    requires
        0 <= i < KEY_CNT,
    ensures
        0 <= qwerty_std(i) < KEY_CNT,
        qwerty_pos(qwerty_std(i)) == i,
{
}

/// Puts every key in its QWERTY slot.
pub fn place_qwerty_keys(key_slots: &mut SlotMap)
    requires
        old(key_slots).wf(),
    ensures
        final(key_slots).wf(),
        final(key_slots)@ == old(key_slots)@.union_prefer_right(qwerty_layout()),
{
    key_slots.insert(Slot::from_tuple((0, 0)), Key::from_tuple(ONE));
    key_slots.insert(Slot::from_tuple((0, 1)), Key::from_tuple(TWO));
    key_slots.insert(Slot::from_tuple((0, 2)), Key::from_tuple(THREE));
    key_slots.insert(Slot::from_tuple((0, 3)), Key::from_tuple(FOUR));
    key_slots.insert(Slot::from_tuple((0, 4)), Key::from_tuple(FIVE));
    key_slots.insert(Slot::from_tuple((0, 5)), Key::from_tuple(SIX));
    key_slots.insert(Slot::from_tuple((0, 6)), Key::from_tuple(SEVEN));
    key_slots.insert(Slot::from_tuple((0, 7)), Key::from_tuple(EIGHT));
    key_slots.insert(Slot::from_tuple((0, 8)), Key::from_tuple(NINE));
    key_slots.insert(Slot::from_tuple((0, 9)), Key::from_tuple(ZERO));
    key_slots.insert(Slot::from_tuple((0, 10)), Key::from_tuple(DASH));
    key_slots.insert(Slot::from_tuple((0, 11)), Key::from_tuple(EQUALS));
    key_slots.insert(Slot::from_tuple((1, 0)), Key::from_tuple(Q));
    key_slots.insert(Slot::from_tuple((1, 1)), Key::from_tuple(W));
    key_slots.insert(Slot::from_tuple((1, 2)), Key::from_tuple(E));
    key_slots.insert(Slot::from_tuple((1, 3)), Key::from_tuple(R));
    key_slots.insert(Slot::from_tuple((1, 4)), Key::from_tuple(T));
    key_slots.insert(Slot::from_tuple((1, 5)), Key::from_tuple(Y));
    key_slots.insert(Slot::from_tuple((1, 6)), Key::from_tuple(U));
    key_slots.insert(Slot::from_tuple((1, 7)), Key::from_tuple(I));
    key_slots.insert(Slot::from_tuple((1, 8)), Key::from_tuple(O));
    key_slots.insert(Slot::from_tuple((1, 9)), Key::from_tuple(P));
    key_slots.insert(Slot::from_tuple((1, 10)), Key::from_tuple(L_BRACKET));
    key_slots.insert(Slot::from_tuple((1, 11)), Key::from_tuple(R_BRACKET));
    key_slots.insert(Slot::from_tuple((1, 12)), Key::from_tuple(BACKSLASH));
    key_slots.insert(Slot::from_tuple((2, 0)), Key::from_tuple(A));
    key_slots.insert(Slot::from_tuple((2, 1)), Key::from_tuple(S));
    key_slots.insert(Slot::from_tuple((2, 2)), Key::from_tuple(D));
    key_slots.insert(Slot::from_tuple((2, 3)), Key::from_tuple(F));
    key_slots.insert(Slot::from_tuple((2, 4)), Key::from_tuple(G));
    key_slots.insert(Slot::from_tuple((2, 5)), Key::from_tuple(H));
    key_slots.insert(Slot::from_tuple((2, 6)), Key::from_tuple(J));
    key_slots.insert(Slot::from_tuple((2, 7)), Key::from_tuple(K));
    key_slots.insert(Slot::from_tuple((2, 8)), Key::from_tuple(L));
    key_slots.insert(Slot::from_tuple((2, 9)), Key::from_tuple(SEMICOLON));
    key_slots.insert(Slot::from_tuple((2, 10)), Key::from_tuple(QUOTE));
    key_slots.insert(Slot::from_tuple((2, 11)), Key::from_tuple(NEWLINE));
    key_slots.insert(Slot::from_tuple((3, 0)), Key::from_tuple(Z));
    key_slots.insert(Slot::from_tuple((3, 1)), Key::from_tuple(X));
    key_slots.insert(Slot::from_tuple((3, 2)), Key::from_tuple(C));
    key_slots.insert(Slot::from_tuple((3, 3)), Key::from_tuple(V));
    key_slots.insert(Slot::from_tuple((3, 4)), Key::from_tuple(B));
    key_slots.insert(Slot::from_tuple((3, 5)), Key::from_tuple(N));
    key_slots.insert(Slot::from_tuple((3, 6)), Key::from_tuple(M));
    key_slots.insert(Slot::from_tuple((3, 7)), Key::from_tuple(COMMA));
    key_slots.insert(Slot::from_tuple((3, 8)), Key::from_tuple(PERIOD));
    key_slots.insert(Slot::from_tuple((3, 9)), Key::from_tuple(F_SLASH));
    assert(key_slots@ =~= old(key_slots)@.union_prefer_right(qwerty_layout()));
}

/// For each slot of the keyboard in row order (see `layout_slot_at`), the
/// index among the standard keys of the key that Dvorak puts there.
pub open spec fn dvorak_std(i: int) -> int {
    if i == 0 {
        0
    } else if i == 1 {
        1
    } else if i == 2 {
        2
    } else if i == 3 {
        3
    } else if i == 4 {
        4
    } else if i == 5 {
        5
    } else if i == 6 {
        6
    } else if i == 7 {
        7
    } else if i == 8 {
        8
    } else if i == 9 {
        9
    } else if i == 10 {
        10
    } else if i == 11 {
        11
    } else if i == 12 {
        20
    } else if i == 13 {
        17
    } else if i == 14 {
        18
    } else if i == 15 {
        36
    } else if i == 16 {
        45
    } else if i == 17 {
        26
    } else if i == 18 {
        27
    } else if i == 19 {
        23
    } else if i == 20 {
        38
    } else if i == 21 {
        32
    } else if i == 22 {
        14
    } else if i == 23 {
        13
    } else if i == 24 {
        15
    } else if i == 25 {
        21
    } else if i == 26 {
        35
    } else if i == 27 {
        25
    } else if i == 28 {
        41
    } else if i == 29 {
        29
    } else if i == 30 {
        24
    } else if i == 31 {
        28
    } else if i == 32 {
        40
    } else if i == 33 {
        34
    } else if i == 34 {
        39
    } else if i == 35 {
        12
    } else if i == 36 {
        16
    } else if i == 37 {
        19
    } else if i == 38 {
        37
    } else if i == 39 {
        30
    } else if i == 40 {
        31
    } else if i == 41 {
        44
    } else if i == 42 {
        22
    } else if i == 43 {
        33
    } else if i == 44 {
        43
    } else if i == 45 {
        42
    } else if i == 46 {
        46
    } else {
        -1
    }
}

/// The slot, in row order, where Dvorak puts each standard key.
pub open spec fn dvorak_pos(j: int) -> int {
    if j == 0 {
        0
    } else if j == 1 {
        1
    } else if j == 2 {
        2
    } else if j == 3 {
        3
    } else if j == 4 {
        4
    } else if j == 5 {
        5
    } else if j == 6 {
        6
    } else if j == 7 {
        7
    } else if j == 8 {
        8
    } else if j == 9 {
        9
    } else if j == 10 {
        10
    } else if j == 11 {
        11
    } else if j == 12 {
        35
    } else if j == 13 {
        23
    } else if j == 14 {
        22
    } else if j == 15 {
        24
    } else if j == 16 {
        36
    } else if j == 17 {
        13
    } else if j == 18 {
        14
    } else if j == 19 {
        37
    } else if j == 20 {
        12
    } else if j == 21 {
        25
    } else if j == 22 {
        42
    } else if j == 23 {
        19
    } else if j == 24 {
        30
    } else if j == 25 {
        27
    } else if j == 26 {
        17
    } else if j == 27 {
        18
    } else if j == 28 {
        31
    } else if j == 29 {
        29
    } else if j == 30 {
        39
    } else if j == 31 {
        40
    } else if j == 32 {
        21
    } else if j == 33 {
        43
    } else if j == 34 {
        33
    } else if j == 35 {
        26
    } else if j == 36 {
        15
    } else if j == 37 {
        38
    } else if j == 38 {
        20
    } else if j == 39 {
        34
    } else if j == 40 {
        32
    } else if j == 41 {
        28
    } else if j == 42 {
        45
    } else if j == 43 {
        44
    } else if j == 44 {
        41
    } else if j == 45 {
        16
    } else if j == 46 {
        46
    } else {
        -1
    }
}

/// The Dvorak layout.
pub open spec fn dvorak_layout() -> Map<Slot, Key> {
    Map::new(|s: Slot| layout_slot(s), |s: Slot| std_key(dvorak_std(layout_index(s))))
}

/// `dvorak_pos` undoes `dvorak_std`: no two slots get the same key.
pub proof fn lemma_dvorak_perm(i: int)
    requires
        0 <= i < KEY_CNT,
    ensures
        0 <= dvorak_std(i) < KEY_CNT,
        dvorak_pos(dvorak_std(i)) == i,
{
}

/// Puts every key in its Dvorak slot.
pub fn place_dvorak_keys(key_slots: &mut SlotMap)
    requires
        old(key_slots).wf(),
    ensures
        final(key_slots).wf(),
        final(key_slots)@ == old(key_slots)@.union_prefer_right(dvorak_layout()),
{
    key_slots.insert(Slot::from_tuple((0, 0)), Key::from_tuple(ONE));
    key_slots.insert(Slot::from_tuple((0, 1)), Key::from_tuple(TWO));
    key_slots.insert(Slot::from_tuple((0, 2)), Key::from_tuple(THREE));
    key_slots.insert(Slot::from_tuple((0, 3)), Key::from_tuple(FOUR));
    key_slots.insert(Slot::from_tuple((0, 4)), Key::from_tuple(FIVE));
    key_slots.insert(Slot::from_tuple((0, 5)), Key::from_tuple(SIX));
    key_slots.insert(Slot::from_tuple((0, 6)), Key::from_tuple(SEVEN));
    key_slots.insert(Slot::from_tuple((0, 7)), Key::from_tuple(EIGHT));
    key_slots.insert(Slot::from_tuple((0, 8)), Key::from_tuple(NINE));
    key_slots.insert(Slot::from_tuple((0, 9)), Key::from_tuple(ZERO));
    key_slots.insert(Slot::from_tuple((0, 10)), Key::from_tuple(L_BRACKET));
    key_slots.insert(Slot::from_tuple((0, 11)), Key::from_tuple(R_BRACKET));
    key_slots.insert(Slot::from_tuple((1, 0)), Key::from_tuple(QUOTE));
    key_slots.insert(Slot::from_tuple((1, 1)), Key::from_tuple(COMMA));
    key_slots.insert(Slot::from_tuple((1, 2)), Key::from_tuple(PERIOD));
    key_slots.insert(Slot::from_tuple((1, 3)), Key::from_tuple(P));
    key_slots.insert(Slot::from_tuple((1, 4)), Key::from_tuple(Y));
    key_slots.insert(Slot::from_tuple((1, 5)), Key::from_tuple(F));
    key_slots.insert(Slot::from_tuple((1, 6)), Key::from_tuple(G));
    key_slots.insert(Slot::from_tuple((1, 7)), Key::from_tuple(C));
    key_slots.insert(Slot::from_tuple((1, 8)), Key::from_tuple(R));
    key_slots.insert(Slot::from_tuple((1, 9)), Key::from_tuple(L));
    key_slots.insert(Slot::from_tuple((1, 10)), Key::from_tuple(F_SLASH));
    key_slots.insert(Slot::from_tuple((1, 11)), Key::from_tuple(EQUALS));
    key_slots.insert(Slot::from_tuple((1, 12)), Key::from_tuple(BACKSLASH));
    key_slots.insert(Slot::from_tuple((2, 0)), Key::from_tuple(A));
    key_slots.insert(Slot::from_tuple((2, 1)), Key::from_tuple(O));
    key_slots.insert(Slot::from_tuple((2, 2)), Key::from_tuple(E));
    key_slots.insert(Slot::from_tuple((2, 3)), Key::from_tuple(U));
    key_slots.insert(Slot::from_tuple((2, 4)), Key::from_tuple(I));
    key_slots.insert(Slot::from_tuple((2, 5)), Key::from_tuple(D));
    key_slots.insert(Slot::from_tuple((2, 6)), Key::from_tuple(H));
    key_slots.insert(Slot::from_tuple((2, 7)), Key::from_tuple(T));
    key_slots.insert(Slot::from_tuple((2, 8)), Key::from_tuple(N));
    key_slots.insert(Slot::from_tuple((2, 9)), Key::from_tuple(S));
    key_slots.insert(Slot::from_tuple((2, 10)), Key::from_tuple(DASH));
    key_slots.insert(Slot::from_tuple((2, 11)), Key::from_tuple(NEWLINE));
    key_slots.insert(Slot::from_tuple((3, 0)), Key::from_tuple(SEMICOLON));
    key_slots.insert(Slot::from_tuple((3, 1)), Key::from_tuple(Q));
    key_slots.insert(Slot::from_tuple((3, 2)), Key::from_tuple(J));
    key_slots.insert(Slot::from_tuple((3, 3)), Key::from_tuple(K));
    key_slots.insert(Slot::from_tuple((3, 4)), Key::from_tuple(X));
    key_slots.insert(Slot::from_tuple((3, 5)), Key::from_tuple(B));
    key_slots.insert(Slot::from_tuple((3, 6)), Key::from_tuple(M));
    key_slots.insert(Slot::from_tuple((3, 7)), Key::from_tuple(W));
    key_slots.insert(Slot::from_tuple((3, 8)), Key::from_tuple(V));
    key_slots.insert(Slot::from_tuple((3, 9)), Key::from_tuple(Z));
    assert(key_slots@ =~= old(key_slots)@.union_prefer_right(dvorak_layout()));
}

/// The keys that table swaps move around, one per tuple.
pub fn get_swappable_keys(swappable_keys: &[(u8, u8); 30]) -> (keys: Vec<Key>)
    requires
        forall|i: int|
            0 <= i < 30 ==> (#[trigger] swappable_keys@[i]).0 as usize <= ASCII_CNT
                && swappable_keys@[i].1 as usize <= ASCII_CNT,
    ensures
        keys@.len() == 30,
        forall|i: int|
            0 <= i < 30 ==> #[trigger] keys@[i] == (Key { base: swappable_keys@[i].0, shift: swappable_keys@[i].1 }),
{
    let mut keys: Vec<Key> = Vec::new();
    let mut i: usize = 0;
    while i < 30
        invariant
            i <= 30,
            keys@.len() == i,
            forall|j: int|
                0 <= j < 30 ==> (#[trigger] swappable_keys@[j]).0 as usize <= ASCII_CNT
                    && swappable_keys@[j].1 as usize <= ASCII_CNT,
            forall|j: int|
                0 <= j < i ==> #[trigger] keys@[j] == (Key { base: swappable_keys@[j].0, shift: swappable_keys@[j].1 }),
        decreases 30 - i,
    {
        keys.push(Key::from_tuple(swappable_keys[i]));
        i = i + 1;
    }
    keys
}

/// The entries whose key is not one of `swappable_keys`, in their order.
pub open spec fn static_entries(
    swappable_keys: Seq<Key>,
    valid_locs: Seq<(Key, Vec<Slot>)>,
) -> Seq<(Key, Vec<Slot>)> {
    valid_locs.filter(|e: (Key, Vec<Slot>)| !swappable_keys.contains(e.0))
}

proof fn lemma_static_push(
    swappable_keys: Seq<Key>,
    v: Seq<(Key, Vec<Slot>)>,
    x: (Key, Vec<Slot>),
)
    ensures
        static_entries(swappable_keys, v.push(x)) == (if swappable_keys.contains(x.0) {
            static_entries(swappable_keys, v)
        } else {
            static_entries(swappable_keys, v).push(x)
        }),
{
    reveal_with_fuel(Seq::filter, 1);
    assert(v.push(x).drop_last() =~= v);
    assert(v.push(x).last() == x);
}

fn contains_key(keys: &[Key], key: Key) -> (found: bool)
    ensures
        found == keys@.contains(key),
{
    let mut i: usize = 0;
    while i < keys.len()
        invariant
            i <= keys@.len(),
            forall|k: int| 0 <= k < i ==> keys@[k] != key,
        decreases keys@.len() - i,
    {
        if keys[i] == key {
            assert(keys@[i as int] == key);
            return true;
        }
        i = i + 1;
    }
    false
}

/// The entries of the keys that table swaps leave where they are: those whose
/// key is not one of `swappable_keys`, in their order, each with a copy of its
/// valid slots.
pub fn get_static_keys(swappable_keys: &[Key], valid_locs: &[(Key, Vec<Slot>)]) -> (statics: Vec<
    (Key, Vec<Slot>),
>)
    ensures
        statics@.len() == static_entries(swappable_keys@, valid_locs@).len(),
        forall|i: int|
            0 <= i < statics@.len() ==> (#[trigger] statics@[i]).0 == static_entries(
                swappable_keys@,
                valid_locs@,
            )[i].0 && statics@[i].1@ == static_entries(swappable_keys@, valid_locs@)[i].1@,
{
    let mut statics: Vec<(Key, Vec<Slot>)> = Vec::new();
    let mut i: usize = 0;
    assert(valid_locs@.take(0) =~= Seq::<(Key, Vec<Slot>)>::empty());
    while i < valid_locs.len()
        invariant
            i <= valid_locs@.len(),
            statics@.len() == static_entries(swappable_keys@, valid_locs@.take(i as int)).len(),
            forall|k: int|
                0 <= k < statics@.len() ==> (#[trigger] statics@[k]).0 == static_entries(
                    swappable_keys@,
                    valid_locs@.take(i as int),
                )[k].0 && statics@[k].1@ == static_entries(
                    swappable_keys@,
                    valid_locs@.take(i as int),
                )[k].1@,
        decreases valid_locs@.len() - i,
    {
        proof {
            assert(valid_locs@.take(i as int + 1) =~= valid_locs@.take(i as int).push(valid_locs@[i as int]));
            lemma_static_push(swappable_keys@, valid_locs@.take(i as int), valid_locs@[i as int]);
        }
        if !contains_key(swappable_keys, valid_locs[i].0) {
            let slots = copy_vec(&valid_locs[i].1);
            statics.push((valid_locs[i].0, slots));
        }
        i = i + 1;
    }
    assert(valid_locs@.take(valid_locs@.len() as int) =~= valid_locs@);
    statics
}

/// Whether `key` is still to be placed and may go to `slot`.
pub open spec fn placeable(
    slot: Slot,
    unplaced: Seq<Key>,
    valid_slots: Seq<(Key, Vec<Slot>)>,
) -> spec_fn(Key) -> bool {
    |key: Key| unplaced.contains(key) && valid_of(valid_slots, key).contains(slot)
}

proof fn lemma_filter_push_key(s: Seq<Key>, x: Key, p: spec_fn(Key) -> bool)
    ensures
        s.push(x).filter(p) == (if p(x) {
            s.filter(p).push(x)
        } else {
            s.filter(p)
        }),
{
    reveal_with_fuel(Seq::filter, 1);
    assert(s.push(x).drop_last() =~= s);
    assert(s.push(x).last() == x);
}

fn slot_listed(slots: &Vec<Slot>, x: Slot) -> (found: bool)
    ensures
        found == slots@.contains(x),
{
    let mut i: usize = 0;
    while i < slots.len()
        invariant
            i <= slots@.len(),
            forall|k: int| 0 <= k < i ==> slots@[k] != x,
        decreases slots@.len() - i,
    {
        if slots[i] == x {
            assert(slots@[i as int] == x);
            return true;
        }
        i = i + 1;
    }
    false
}

/// The keys among `offered`, in their order, that are still to be placed
/// and may go to `slot`: the candidates for a slot when keys are placed one
/// slot at a time.
pub fn placeable_keys(
    slot: Slot,
    offered: &Vec<Key>,
    unplaced: &Vec<Key>,
    valid_slots: &Vec<(Key, Vec<Slot>)>,
) -> (keys: Vec<Key>)
    requires
        keys_distinct(valid_slots@),
        forall|k: Key| offered@.contains(k) && unplaced@.contains(k) ==> has_entry(valid_slots@, k),
    ensures
        keys@ == offered@.filter(placeable(slot, unplaced@, valid_slots@)),
{
    let ghost p = placeable(slot, unplaced@, valid_slots@);
    let mut keys: Vec<Key> = Vec::new();
    let mut i: usize = 0;
    assert(offered@.take(0) =~= Seq::<Key>::empty());
    while i < offered.len()
        invariant
            i <= offered@.len(),
            keys_distinct(valid_slots@),
            forall|k: Key| offered@.contains(k) && unplaced@.contains(k) ==> has_entry(valid_slots@, k),
            p == placeable(slot, unplaced@, valid_slots@),
            keys@ == offered@.take(i as int).filter(p),
        decreases offered@.len() - i,
    {
        let key = offered[i];
        proof {
            assert(offered@.take(i as int + 1) =~= offered@.take(i as int).push(key));
            lemma_filter_push_key(offered@.take(i as int), key, p);
        }
        if contains_key(unplaced.as_slice(), key) {
            assert(offered@.contains(key));
            let e = find_entry(valid_slots, key);
            proof {
                lemma_entry_index(valid_slots@, e as int);
            }
            if slot_listed(&valid_slots[e].1, slot) {
                keys.push(key);
            }
        }
        i = i + 1;
    }
    assert(offered@.take(offered@.len() as int) =~= offered@);
    keys
}

/// `qwerty_std` and `qwerty_pos` are inverse both ways on the standard keys.
proof fn lemma_qwerty_onto(j: int)
    requires
        0 <= j < KEY_CNT,
    ensures
        0 <= qwerty_pos(j) < KEY_CNT,
        qwerty_std(qwerty_pos(j)) == j,
{
}

/// `dvorak_std` and `dvorak_pos` are inverse both ways on the standard keys.
proof fn lemma_dvorak_onto(j: int)
    requires
        0 <= j < KEY_CNT,
    ensures
        0 <= dvorak_pos(j) < KEY_CNT,
        dvorak_std(dvorak_pos(j)) == j,
{
}

proof fn lemma_layout_slot_at(i: int)
    requires
        0 <= i < KEY_CNT,
    ensures
        layout_slot(layout_slot_at(i)),
        layout_index(layout_slot_at(i)) == i,
{
}

/// QWERTY and Dvorak fill the same slots with the same keys, the standard
/// keys, and agree on the number row up to its tenth column.
pub proof fn lemma_qwerty_dvorak_same_keys()
    ensures
        qwerty_layout().dom() == layout_set(),
        dvorak_layout().dom() == layout_set(),
        qwerty_layout().values() == dvorak_layout().values(),
        forall|j: int| 0 <= j < KEY_CNT ==> #[trigger] qwerty_layout().values().contains(std_key(j)),
        forall|c: usize|
            c <= 9 ==> qwerty_layout()[Slot { row: 0, col: c }] == #[trigger] dvorak_layout()[Slot {
                row: 0,
                col: c,
            }],
{
    assert(qwerty_layout().dom() =~= layout_set());
    assert(dvorak_layout().dom() =~= layout_set());
    assert forall|j: int| 0 <= j < KEY_CNT implies #[trigger] qwerty_layout().values().contains(std_key(j))
        && dvorak_layout().values().contains(std_key(j)) by {
        lemma_qwerty_onto(j);
        lemma_dvorak_onto(j);
        let sq = layout_slot_at(qwerty_pos(j));
        let sd = layout_slot_at(dvorak_pos(j));
        lemma_layout_slot_at(qwerty_pos(j));
        lemma_layout_slot_at(dvorak_pos(j));
        assert(qwerty_layout().dom().contains(sq) && qwerty_layout()[sq] == std_key(j));
        assert(dvorak_layout().dom().contains(sd) && dvorak_layout()[sd] == std_key(j));
    }
    assert forall|k: Key| qwerty_layout().values().contains(k) implies dvorak_layout().values().contains(k) by {
        let s = choose|s: Slot| qwerty_layout().dom().contains(s) && qwerty_layout()[s] == k;
        lemma_layout_index(s);
        lemma_qwerty_perm(layout_index(s));
        assert(dvorak_layout().values().contains(std_key(qwerty_std(layout_index(s)))));
    }
    assert forall|k: Key| dvorak_layout().values().contains(k) implies qwerty_layout().values().contains(k) by {
        let s = choose|s: Slot| dvorak_layout().dom().contains(s) && dvorak_layout()[s] == k;
        lemma_layout_index(s);
        lemma_dvorak_perm(layout_index(s));
        assert(qwerty_layout().values().contains(std_key(dvorak_std(layout_index(s)))));
    }
    assert(qwerty_layout().values() =~= dvorak_layout().values());
}

} // verus!
