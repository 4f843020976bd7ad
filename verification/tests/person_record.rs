use allergens::person::Person;
use allergens::set::Allergen;
use allergens::universe::{CATS, EGGS, TMTO};

fn john() -> Person {
    Person::new((18, "John Doe", 180, 7000, Allergen::new(0)))
}

#[test]
fn new_keeps_the_given_attributes() {
    let p = john();
    assert_eq!(p.age, 18);
    assert_eq!(p.name, "John Doe");
    assert_eq!(p.height_centi, 180);
    assert_eq!(p.weight_centi, 7000);
    assert_eq!(p.allergies, Allergen::new(0));
}

#[test]
fn is_allergic_to_tests_the_bits() {
    let p = Person::new((18, "John", 175, 8500, Allergen::new(EGGS | TMTO)));
    assert!(p.is_allergic_to(Allergen::new(EGGS)));
    assert!(p.is_allergic_to(Allergen::new(EGGS | TMTO)));
    assert!(!p.is_allergic_to(Allergen::new(CATS)));
}

#[test]
fn allergies_recomputes_the_set_from_the_universe() {
    let p = Person::new((32, "Britney", 156, 6080, Allergen::new(EGGS)));
    assert_eq!(p.allergies(), Allergen::new(EGGS));
    let q = Person::new((32, "Britney", 156, 6080, Allergen::new(EGGS | CATS)));
    assert_eq!(q.allergies(), Allergen::new(EGGS | CATS));
}

#[test]
fn allergies_drops_bits_outside_the_universe() {
    let p = Person::new((20, "Ann", 165, 5500, Allergen::new(EGGS | 1024)));
    assert_eq!(p.allergies(), Allergen::new(EGGS));
}
