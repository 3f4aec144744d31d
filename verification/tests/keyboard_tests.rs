use std::collections::{BTreeMap, BTreeSet};

use ma_keyboard::constants::SWAPPABLE_KEYS;
use ma_keyboard::kb_builders::placeable_keys;
use ma_keyboard::kb_builders::{
    check_col, get_static_keys, get_swappable_keys, get_valid_key_locs_sorted, place_dvorak_keys,
    place_keys, place_qwerty_keys,
};
use ma_keyboard::keyboard::{Key, Keyboard, Score, Slot, SlotMap};
use rand::rngs::SmallRng;
use rand::SeedableRng;

fn corpus(entries: &[&str]) -> Vec<String> {
    entries.iter().map(|e| e.to_string()).collect()
}

fn eval_qwerty(entries: &[&str]) -> Score {
    let mut kb = Keyboard::create_qwerty();
    kb.eval(&corpus(entries));
    kb.get_score()
}

fn rows_of(kb: &Keyboard) -> Vec<String> {
    kb.get_display_chars()
        .into_iter()
        .map(|row| row.into_iter().collect())
        .collect()
}

fn all_slots() -> Vec<Slot> {
    let counts = [12, 13, 12, 10];
    let mut slots = Vec::new();
    for (row, cnt) in counts.iter().enumerate() {
        for col in 0..*cnt {
            slots.push(Slot::from_tuple((row, col)));
        }
    }
    slots
}

#[test]
fn qwerty_display_rows() {
    let kb = Keyboard::create_qwerty();
    assert_eq!(
        rows_of(&kb),
        vec![
            "1234567890-=".to_string(),
            "qwertyuiop[]\\".to_string(),
            "asdfghjkl;'\n".to_string(),
            "zxcvbnm,./".to_string(),
        ]
    );
}

#[test]
fn dvorak_display_rows() {
    let kb = Keyboard::create_dvorak();
    assert_eq!(
        rows_of(&kb),
        vec![
            "1234567890[]".to_string(),
            "',.pyfgcrl/=\\".to_string(),
            "aoeuidhtns-\n".to_string(),
            ";qjkxbmwvz".to_string(),
        ]
    );
}

#[test]
fn eval_single_home_key_is_one() {
    // The left pinky on the home row, with no history: efficiency 1.0.
    let score = eval_qwerty(&["a"]);
    assert_eq!(score, Score { eff_sum: 100_000_000, left_uses: 1, right_uses: 0 });
}

#[test]
fn eval_inward_roll_is_rewarded() {
    // a then s: same row, toward the center, so 1.0 + 1.2.
    let score = eval_qwerty(&["as"]);
    assert_eq!(score, Score { eff_sum: 220_000_000, left_uses: 2, right_uses: 0 });
}

#[test]
fn eval_row_change_with_index_reach() {
    // a then b: 1.0 + 0.1536.
    let score = eval_qwerty(&["ab"]);
    assert_eq!(score, Score { eff_sum: 115_360_000, left_uses: 2, right_uses: 0 });
}

#[test]
fn eval_number_row_penalty() {
    let score = eval_qwerty(&["q1"]);
    assert_eq!(score, Score { eff_sum: 58_240_000, left_uses: 2, right_uses: 0 });
}

#[test]
fn eval_sentence() {
    let score = eval_qwerty(&["the quick brown fox"]);
    assert_eq!(score, Score { eff_sum: 1_148_736_000, left_uses: 9, right_uses: 7 });
}

#[test]
fn eval_untyped_characters_break_history() {
    // Spaces are typed by no key and break the history; '!' is the shift of '1'.
    let score = eval_qwerty(&["Hello, World!"]);
    assert_eq!(score, Score { eff_sum: 798_320_000, left_uses: 5, right_uses: 7 });
}

#[test]
fn eval_shift_not_considered() {
    assert_eq!(eval_qwerty(&["aA"]), eval_qwerty(&["aa"]));
    assert_eq!(eval_qwerty(&["Hello"]), eval_qwerty(&["hello"]));
    assert_eq!(eval_qwerty(&["THE QUICK"]), eval_qwerty(&["the quick"]));
}

#[test]
fn eval_history_carries_across_entries() {
    assert_eq!(eval_qwerty(&["fj", "fj"]), eval_qwerty(&["fjfj"]));
    assert_eq!(eval_qwerty(&["fj", "fj"]), Score { eff_sum: 360_000_000, left_uses: 2, right_uses: 2 });
}

#[test]
fn eval_empty_corpus_scores_zero() {
    assert_eq!(eval_qwerty(&[]), Score { eff_sum: 0, left_uses: 0, right_uses: 0 });
    assert_eq!(eval_qwerty(&["   "]), Score { eff_sum: 0, left_uses: 0, right_uses: 0 });
}

#[test]
fn eval_keeps_score_until_layout_changes() {
    let mut kb = Keyboard::create_qwerty();
    kb.eval(&corpus(&["as"]));
    let first = kb.get_score();
    kb.eval(&corpus(&["the quick brown fox"]));
    assert_eq!(kb.get_score(), first);
}

#[test]
fn same_layout_same_score() {
    let a = eval_qwerty(&["the quick brown fox"]);
    let b = eval_qwerty(&["the quick brown fox"]);
    assert_eq!(a, b);
    let mut clone_src = Keyboard::create_qwerty();
    clone_src.eval(&corpus(&["ab"]));
    let mut copy = clone_src.clone();
    assert_eq!(copy.get_score(), clone_src.get_score());
    copy.eval(&corpus(&["the quick brown fox"]));
    assert_eq!(copy.get_score(), clone_src.get_score());
}

#[test]
fn create_primo_places_every_key() {
    let kb = Keyboard::create_primo(7);
    assert_eq!(kb.get_id(), 7);
    assert_eq!(kb.get_generation(), 0);
    assert!(!kb.is_elite());
    let rows = kb.get_display_chars();
    let lens: Vec<usize> = rows.iter().map(|r| r.len()).collect();
    assert_eq!(lens, vec![12, 13, 12, 10]);
    let mut chars: Vec<char> = rows.into_iter().flatten().collect();
    chars.sort();
    let mut expected: Vec<char> = "1234567890-=qwertyuiop[]\\asdfghjkl;'\nzxcvbnm,./".chars().collect();
    expected.sort();
    assert_eq!(chars, expected);
}

#[test]
fn shuffle_keeps_the_keys() {
    let mut rng = SmallRng::seed_from_u64(17);
    let mut kb = Keyboard::create_primo(0);
    let before = rows_of(&kb);
    kb.shuffle(&mut rng, 30);
    let after = rows_of(&kb);
    assert_ne!(before, after);
    let mut b: Vec<char> = before.concat().chars().collect();
    let mut a: Vec<char> = after.concat().chars().collect();
    b.sort();
    a.sort();
    assert_eq!(a, b);
    // The number row never moves.
    assert_eq!(before[0], after[0]);
}

#[test]
fn shuffle_picks_slots_at_random() {
    // Each shuffle draws the slot of the first key at random; over several
    // seeds the slot differs.
    let mut firsts: Vec<Slot> = Vec::new();
    for seed in 0..20 {
        let mut rng = SmallRng::seed_from_u64(seed);
        let mut kb = Keyboard::create_primo(0);
        kb.shuffle(&mut rng, 1);
        let ((slot_a, _), _) = kb.get_last_swap();
        firsts.push(slot_a);
    }
    let first = firsts[0];
    assert!(firsts.iter().any(|s| *s != first));
}

#[test]
fn elite_and_pos_iter() {
    let mut kb = Keyboard::create_qwerty();
    kb.set_elite();
    assert!(kb.is_elite());
    kb.unset_elite();
    assert!(!kb.is_elite());
    assert_eq!(kb.get_pos_iter(), 0);
    kb.add_pos_iter();
    kb.add_pos_iter();
    assert_eq!(kb.get_pos_iter(), 2);
}

#[test]
fn table_swap_candidates_and_swap() {
    let mut kb = Keyboard::create_primo(0);
    kb.eval(&corpus(&["the quick brown fox"]));
    let score = kb.get_score();
    let firsts = kb.first_pick_candidates();
    // Static keys outside the alpha area are never picked first.
    assert!(!firsts.iter().any(|(s, _)| s.get_row() == 0));
    assert!(firsts.len() >= 30);
    let (slot_a, key_a) = firsts
        .iter()
        .copied()
        .find(|(s, _)| *s == Slot::from_tuple((2, 2)))
        .unwrap();
    let seconds = kb.second_pick_candidates(slot_a, key_a);
    assert!(!seconds.is_empty());
    for (s, k) in &seconds {
        assert!(s.get_row() >= 1 && s.get_col() <= 9);
        assert_ne!(*k, key_a);
    }
    let before = rows_of(&kb);
    let (slot_b, key_b) = seconds[0];
    kb.table_swap(slot_a, key_a, slot_b, key_b);
    assert_eq!(kb.get_last_score(), score);
    assert_eq!(kb.get_last_swap(), ((slot_a, key_a), (slot_b, key_b)));
    assert_ne!(rows_of(&kb), before);
    // Swapping back restores the layout.
    kb.table_swap(slot_a, key_b, slot_b, key_a);
    assert_eq!(rows_of(&kb), before);
}

fn valid_placement() -> Vec<Slot> {
    let vkl = get_valid_key_locs_sorted();
    let mut slots = SlotMap::new();
    assert!(place_keys(&mut slots, &vkl, 0));
    let mut placement: Vec<Slot> = vec![Slot::from_tuple((0, 0)); vkl.len()];
    for slot in all_slots() {
        let key = slots.get(&slot).unwrap();
        let k = vkl.iter().position(|e| e.0 == key).unwrap();
        placement[k] = slot;
    }
    placement
}

#[test]
fn from_placement_accepts_a_valid_placement() {
    let vkl = get_valid_key_locs_sorted();
    let placement = valid_placement();
    let kb = Keyboard::from_placement(get_valid_key_locs_sorted(), &placement, 3, 9).unwrap();
    assert_eq!(kb.get_generation(), 3);
    assert_eq!(kb.get_id(), 9);
    let rows = kb.get_display_chars();
    for (k, slot) in placement.iter().enumerate() {
        assert_eq!(rows[slot.get_row()][slot.get_col()], vkl[k].0.get_base() as char);
    }
}

#[test]
fn from_placement_refuses_bad_placements() {
    let placement = valid_placement();
    // Too short.
    let short: Vec<Slot> = placement[..46].to_vec();
    assert!(Keyboard::from_placement(get_valid_key_locs_sorted(), &short, 0, 0).is_none());
    // A slot used twice.
    let mut dup = placement.clone();
    dup[46] = dup[45];
    assert!(Keyboard::from_placement(get_valid_key_locs_sorted(), &dup, 0, 0).is_none());
    // Two keys trading places where one of them may not go: the first key
    // is static.
    let mut wrong = placement.clone();
    wrong.swap(0, 46);
    assert!(Keyboard::from_placement(get_valid_key_locs_sorted(), &wrong, 0, 0).is_none());
}

#[test]
fn valid_key_locs_are_sorted_by_slot_count() {
    let vkl = get_valid_key_locs_sorted();
    assert_eq!(vkl.len(), 47);
    for w in vkl.windows(2) {
        assert!(w[0].1.len() <= w[1].1.len());
    }
    assert_eq!(vkl.iter().filter(|e| e.1.len() == 1).count(), 17);
    assert_eq!(vkl[0].0, Key::from_tuple((b'1', b'!')));
}

#[test]
fn place_keys_fails_when_slots_run_out() {
    let one = Slot::from_tuple((1, 2));
    let vkl: Vec<(Key, Vec<Slot>)> = vec![
        (Key::from_tuple((b'a', b'A')), vec![one]),
        (Key::from_tuple((b'b', b'B')), vec![one]),
    ];
    let mut slots = SlotMap::new();
    assert!(!place_keys(&mut slots, &vkl, 0));
    assert!(!slots.contains_key(&one));
    let mut slots2 = SlotMap::new();
    assert!(place_keys(&mut slots2, &vkl[..1].to_vec(), 0));
    assert_eq!(slots2.get(&one), Some(Key::from_tuple((b'a', b'A'))));
}

#[test]
fn named_layouts_fill_every_slot() {
    let mut q = SlotMap::new();
    place_qwerty_keys(&mut q);
    let mut d = SlotMap::new();
    place_dvorak_keys(&mut d);
    for slot in all_slots() {
        assert!(q.contains_key(&slot));
        assert!(d.contains_key(&slot));
    }
    assert_eq!(q.get(&Slot::from_tuple((1, 0))), Some(Key::from_tuple((b'q', b'Q'))));
    assert_eq!(d.get(&Slot::from_tuple((1, 0))), Some(Key::from_tuple((b'\'', b'"'))));
}

#[test]
fn swappable_and_static_keys() {
    let swappable = get_swappable_keys(&SWAPPABLE_KEYS);
    assert_eq!(swappable.len(), 30);
    assert_eq!(swappable[0], Key::from_tuple((b',', b'<')));
    let statics = get_static_keys(&swappable, &get_valid_key_locs_sorted());
    assert_eq!(statics.len(), 17);
    for (key, slots) in &statics {
        assert!(!swappable.contains(key));
        assert_eq!(slots.len(), 1);
    }
}

#[test]
fn check_col_bounds() {
    assert!(check_col(0, 12));
    assert!(!check_col(0, 13));
    assert!(check_col(1, 13));
    assert!(check_col(3, 10));
    assert!(!check_col(3, 11));
    assert!(!check_col(4, 0));
}

#[test]
fn shuffle_trades_with_varied_partners() {
    // A key's list of valid slots is put in a random order before the trade
    // partner is looked for, so the same first slot meets different partners.
    let mut partners: BTreeMap<Slot, BTreeSet<Slot>> = BTreeMap::new();
    for seed in 0..200 {
        let mut rng = SmallRng::seed_from_u64(seed);
        let mut kb = Keyboard::create_primo(0);
        kb.shuffle(&mut rng, 1);
        let ((slot_a, _), (slot_b, _)) = kb.get_last_swap();
        if slot_a != slot_b {
            partners.entry(slot_a).or_default().insert(slot_b);
        }
    }
    assert!(partners.values().any(|p| p.len() >= 2));
}

#[test]
fn eval_ignores_bytes_no_key_types() {
    // Each byte outside ASCII breaks the history like a space does; 'é' is
    // two bytes.
    assert_eq!(eval_qwerty(&["é"]), Score { eff_sum: 0, left_uses: 0, right_uses: 0 });
    assert_eq!(eval_qwerty(&["aéa"]), eval_qwerty(&["a  a"]));
    assert_eq!(eval_qwerty(&["aéa"]), Score { eff_sum: 200_000_000, left_uses: 2, right_uses: 0 });
    // After one break the key two back still counts: a, space, a is a
    // same-finger skipgram.
    assert_eq!(eval_qwerty(&["a a"]), Score { eff_sum: 180_000_000, left_uses: 2, right_uses: 0 });
}

#[test]
fn placeable_keys_filters_in_order() {
    let vkl = get_valid_key_locs_sorted();
    let a = Key::from_tuple((b'a', b'A'));
    let e = Key::from_tuple((b'e', b'E'));
    let q = Key::from_tuple((b'q', b'Q'));
    let offered = vec![q, e, a];
    // An alpha key may not go to its own column: q and a to column 0, e to
    // column 2.
    let unplaced = vec![a, e, q];
    assert_eq!(placeable_keys(Slot::from_tuple((2, 6)), &offered, &unplaced, &vkl), vec![q, e, a]);
    assert_eq!(placeable_keys(Slot::from_tuple((2, 0)), &offered, &unplaced, &vkl), vec![e]);
    assert_eq!(placeable_keys(Slot::from_tuple((3, 2)), &offered, &unplaced, &vkl), vec![q, a]);
    // The number row takes no alpha key.
    assert_eq!(placeable_keys(Slot::from_tuple((0, 2)), &offered, &unplaced, &vkl), Vec::<Key>::new());
    assert_eq!(placeable_keys(Slot::from_tuple((2, 6)), &offered, &vec![a], &vkl), vec![a]);
}

#[test]
fn shuffle_leaves_slots_outside_the_alpha_area() {
    for seed in 0..20 {
        let mut rng = SmallRng::seed_from_u64(seed);
        let mut kb = Keyboard::create_primo(0);
        let before = kb.get_display_chars();
        kb.shuffle(&mut rng, 50);
        let after = kb.get_display_chars();
        assert_eq!(before[0], after[0]);
        for row in 1..4 {
            assert_eq!(before[row][10..], after[row][10..]);
        }
    }
}
