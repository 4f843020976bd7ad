use allergens::set::Allergen;
use allergens::universe::{category_list, ALLM, CATS, CHLT, EGGS, PLLN, PNTS, SHFS, STWB, TMTO};

#[test]
fn category_bits_are_distinct_powers_of_two() {
    assert_eq!(
        category_list(),
        vec![EGGS, PNTS, SHFS, STWB, TMTO, CHLT, PLLN, CATS]
    );
    assert_eq!(category_list(), vec![1, 2, 4, 8, 16, 32, 64, 128]);
    assert_eq!(ALLM, 255);
}

#[test]
fn new_holds_the_given_mask() {
    assert_eq!(Allergen::new(0).0, 0);
    assert_eq!(Allergen::new(EGGS | TMTO).0, 17);
}

#[test]
fn add_then_contains() {
    let mut a = Allergen::new(0);
    a.add(EGGS | TMTO);
    assert!(a.contains(EGGS | TMTO));
    assert!(a.contains(EGGS));
    assert!(a.contains(TMTO));
    assert!(!a.contains(CATS));
}

#[test]
fn contains_asks_for_the_whole_combination() {
    let a = Allergen::new(EGGS);
    assert!(!a.contains(EGGS | CATS));
    assert!(a.contains(EGGS));
    assert!(a.contains(0));
}

#[test]
fn add_is_idempotent() {
    let mut once = Allergen::new(STWB);
    once.add(EGGS | PLLN);
    let mut twice = Allergen::new(STWB);
    twice.add(EGGS | PLLN);
    twice.add(EGGS | PLLN);
    assert_eq!(once, twice);
}

#[test]
fn remove_then_not_contains() {
    let mut a = Allergen::new(0);
    a.add(EGGS | TMTO | CATS);
    a.remove(TMTO);
    assert!(!a.contains(TMTO));
    assert!(a.contains(EGGS | CATS));
}

#[test]
fn remove_of_absent_bits_changes_nothing() {
    let mut a = Allergen::new(EGGS | SHFS);
    a.remove(CHLT | PLLN);
    assert_eq!(a.0, EGGS | SHFS);
}

#[test]
fn from_iter_folds_with_or() {
    assert_eq!(Allergen::from_iter(&vec![]).0, 0);
    assert_eq!(Allergen::from_iter(&vec![EGGS, TMTO]).0, EGGS | TMTO);
    assert_eq!(Allergen::from_iter(&vec![EGGS, EGGS, TMTO]).0, EGGS | TMTO);
}

#[test]
fn members_follow_declaration_order() {
    let a = Allergen::new(CATS | EGGS | TMTO);
    assert_eq!(a.members(), vec![EGGS, TMTO, CATS]);
    assert_eq!(Allergen::new(0).members(), Vec::<u32>::new());
}

#[test]
fn members_drop_bits_outside_the_universe() {
    let a = Allergen::new(EGGS | 256);
    assert_eq!(a.members(), vec![EGGS]);
}

#[test]
fn members_round_trip_reproduces_the_mask() {
    for mask in 0u32..=255 {
        let a = Allergen::new(mask);
        assert_eq!(Allergen::from_iter(&a.members()).0, mask);
    }
}
