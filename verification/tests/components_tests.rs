use ma_keyboard::constants::KEY_TUPLES;
use ma_keyboard::corpus::initialize_corpus;
use ma_keyboard::enums::{Col, Finger, Hand, KeySetError, ListType, Row};
use ma_keyboard::errors::CorpusErr;
use ma_keyboard::kb_components::{HandInfo, Key, KeyList, KeySlot, LocInfo};
use ma_keyboard::key::{Key as TemplateKey, LightKey};
use ma_keyboard::key_template::KeyTemplate;
use ma_keyboard::mapped_swap::shuffle_check;
use ma_keyboard::keyboard::{Key as LayoutKey, Slot};
use ma_keyboard::structs::IdSpawner;
use rand::rngs::SmallRng;
use rand::SeedableRng;

#[test]
fn id_spawner_counts_up() {
    let mut ids = IdSpawner::new();
    assert_eq!(ids.get(), 0);
    assert_eq!(ids.get(), 1);
    assert_eq!(ids.get(), 2);
}

#[test]
fn key_tuples_rules() {
    for (base, shift) in KEY_TUPLES.iter() {
        assert_ne!(base, shift);
        assert!(!base.is_ascii_uppercase());
        assert!(!shift.is_ascii_digit());
        assert_eq!(base.is_ascii_alphabetic(), shift.is_ascii_alphabetic());
        if base.is_ascii_digit() || shift.is_ascii_digit() {
            assert!(!base.is_ascii_alphabetic() && !shift.is_ascii_alphabetic());
        }
    }
}

#[test]
fn enum_numbers() {
    assert_eq!(Row::Num.get_num(), 4);
    assert_eq!(Row::Below.get_num(), 1);
    assert_eq!(Finger::Pinky.get_num(), 5);
    assert_eq!(Finger::Index.get_num(), 2);
    assert_eq!(Col::One.get_finger(), Finger::Pinky);
    assert_eq!(Col::Five.get_finger(), Finger::Index);
    assert_eq!(Col::Five.get_hand(), Hand::Left);
    assert_eq!(Col::Six.get_hand(), Hand::Right);
}

#[test]
fn key_set_error_messages() {
    assert_eq!(KeySetError::InvalidKey.message(), "Invalid key");
    assert_eq!(KeySetError::SingleKeySlot.message(), "Single Key Slot");
}

#[test]
fn corpus_errors() {
    match initialize_corpus(vec![]) {
        Err(CorpusErr::EmptyCorpus) => {},
        _ => panic!("an empty corpus is refused"),
    }
    let ok = initialize_corpus(vec!["abc".to_string()]).unwrap();
    assert_eq!(ok, vec!["abc".to_string()]);
    assert_eq!(CorpusErr::EmptyCorpus.description(), "corpus is empty");
    let io: CorpusErr = std::io::Error::new(std::io::ErrorKind::NotFound, "gone").into();
    assert!(matches!(io, CorpusErr::Io(_)));
    assert_eq!(io.description(), "IO error");
}

fn slot_with(list: Vec<Key>, list_type: ListType, key: Key) -> KeySlot {
    KeySlot::new(
        key,
        LocInfo::from_row_col(Row::Home, Col::One),
        HandInfo::from_hand_finger(Hand::Left, Finger::Pinky),
        KeyList::from_vec(list, list_type),
    )
}

#[test]
fn key_slot_set_key() {
    let a = Key::from_template(ma_keyboard::enums::KeyTemplate::A);
    let b = Key::from_template(ma_keyboard::enums::KeyTemplate::B);
    // A single-key slot refuses any change.
    let mut single = slot_with(vec![a], ListType::Allow, a);
    assert_eq!(single.set_key(b), Err(KeySetError::SingleKeySlot));
    assert_eq!(single.get_key(), a);
    // A deny list refuses the keys it names.
    let mut deny = slot_with(vec![b], ListType::Deny, a);
    assert_eq!(deny.set_key(b), Err(KeySetError::InvalidKey));
    assert_eq!(deny.get_key(), a);
    // An allow list accepts the keys it names.
    let mut allow = slot_with(vec![a, b], ListType::Allow, a);
    assert_eq!(allow.set_key(b), Ok(()));
    assert_eq!(allow.get_key(), b);
    assert_eq!(allow.get_loc_info().get_row(), Row::Home);
    assert_eq!(allow.get_hand_info().get_hand(), Hand::Left);
}

#[test]
fn key_list_checks() {
    let a = Key::from_template(ma_keyboard::enums::KeyTemplate::A);
    let b = Key::from_template(ma_keyboard::enums::KeyTemplate::B);
    let allow = KeyList::from_vec(vec![a], ListType::Allow);
    assert!(allow.contains_one_valid_key());
    assert!(allow.is_valid_key(a));
    assert!(!allow.is_valid_key(b));
    let deny = KeyList::from_vec(vec![a], ListType::Deny);
    assert!(!deny.contains_one_valid_key());
    assert!(!deny.is_valid_key(a));
    assert!(deny.is_valid_key(b));
    assert_eq!(a.get_base(), b'a');
    assert_eq!(a.get_shift(), b'A');
}

#[test]
fn template_keys() {
    let one = TemplateKey::from_template(KeyTemplate::One);
    assert!(one.is_static());
    assert_eq!(one.get_cnt_valid_locations(), 1);
    assert_eq!(one.get_valid_locations(), &[(0, 0)][..]);
    assert_eq!(one.get_base(), b'1');
    assert_eq!(one.get_shift(), b'!');
    let e = TemplateKey::from_template(KeyTemplate::E);
    assert!(!e.is_static());
    assert_eq!(e.get_valid_locations(), &[(2, 6), (2, 7)][..]);
    assert_eq!(e.get_valid_location_at_idx(1), (2, 7));
    assert_eq!(e.get_template(), KeyTemplate::E);
    let light = LightKey::from_template(KeyTemplate::Quote);
    assert_eq!(light.get_base(), b'\'');
    assert_eq!(light.get_shift(), b'"');
    assert_eq!(KeyTemplate::Q.get_starting_location(), (3, 0));
    assert_eq!(KeyTemplate::A.get_starting_location(), (2, 2));
}

#[test]
fn shuffling_valid_locations_keeps_them() {
    let mut r = TemplateKey::from_template(KeyTemplate::R);
    let before: Vec<(usize, usize)> = r.get_valid_locations().to_vec();
    let mut moved = false;
    for seed in 0..5 {
        let mut rng = SmallRng::seed_from_u64(seed);
        r.shuffle_valid_locations(&mut rng);
        let after: Vec<(usize, usize)> = r.get_valid_locations().to_vec();
        if after != before {
            moved = true;
        }
        let mut a = after.clone();
        let mut b = before.clone();
        a.sort();
        b.sort();
        assert_eq!(a, b);
    }
    assert!(moved);
}

#[test]
fn shuffle_check_is_symmetric() {
    let a = LayoutKey::from_tuple((b'a', b'A'));
    let b = LayoutKey::from_tuple((b'b', b'B'));
    let s1 = Slot::from_tuple((1, 2));
    let s2 = Slot::from_tuple((2, 3));
    let valid = vec![(a, vec![s1, s2]), (b, vec![s1, s2])];
    assert!(shuffle_check(&valid, s1, a, s2, b));
    assert!(shuffle_check(&valid, s2, b, s1, a));
    assert!(!shuffle_check(&valid, s1, a, s1, a));
    let one_way = vec![(a, vec![s1, s2]), (b, vec![s2])];
    assert!(!shuffle_check(&one_way, s1, a, s2, b));
    assert!(!shuffle_check(&one_way, s2, b, s1, a));
}

#[test]
fn shuffling_valid_locations_moves_every_location() {
    for seed in 0..10 {
        let mut rng = SmallRng::seed_from_u64(seed);
        let mut t = TemplateKey::from_template(KeyTemplate::T);
        let before: Vec<(usize, usize)> = t.get_valid_locations().to_vec();
        t.shuffle_valid_locations(&mut rng);
        let after: Vec<(usize, usize)> = t.get_valid_locations().to_vec();
        assert_eq!(after.len(), before.len());
        for k in 0..before.len() {
            assert_ne!(after[k], before[k]);
        }
    }
    // A single location stays where it is.
    let mut one = TemplateKey::from_template(KeyTemplate::One);
    let mut rng = SmallRng::seed_from_u64(3);
    one.shuffle_valid_locations(&mut rng);
    assert_eq!(one.get_valid_locations(), &[(0, 0)][..]);
}
