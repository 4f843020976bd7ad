//! The profile record: one individual's static attributes together with an
//! owned allergen set. Height and weight are carried in hundredths of a unit
//! so that the two-decimal display is exact.

use crate::set::{members_spec, or_all, Allergen};
use vstd::prelude::*;

verus! {

/// One individual: static attributes plus an owned allergen set.
#[derive(Debug)]
pub struct Person {
    pub age: u8,
    pub name: String,
    pub height_centi: u32,
    pub weight_centi: u32,
    pub allergies: Allergen,
}

impl Person {
    /// A record built from age, name, height and weight (both in hundredths
    /// of a unit) and an initial allergen set.
    pub fn new(m: (u8, &str, u32, u32, Allergen)) -> (p: Person)
        ensures
            p.age == m.0,
            p.name@ == m.1@,
            p.height_centi == m.2,
            p.weight_centi == m.3,
            p.allergies == m.4,
    {
        let (age, name, height_centi, weight_centi, allergies) = m;
        Person { age, name: name.to_owned(), height_centi, weight_centi, allergies }
    }

    /// True iff every bit of `allergen` is set in the record's allergen set.
    pub fn is_allergic_to(&self, allergen: Allergen) -> (r: bool)
        ensures
            r == (allergen.0 & self.allergies.0 == allergen.0),
    {
        self.allergies.contains(allergen.0)
    }

    /// The allergen set recomputed from scratch: the known categories are
    /// walked in declaration order and the matching bits folded back in, so
    /// bits outside the universe are dropped.
    pub fn allergies(&self) -> (a: Allergen)
        ensures
            a.0 == or_all(members_spec(self.allergies.0)),
    {
        let members = self.allergies.members();
        Allergen::from_iter(&members)
    }
}

} // verus!
