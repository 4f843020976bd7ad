//! Tracks, per individual, membership in a fixed universe of eight allergen
//! categories, encoded as a bitmask, together with the decision logic of an
//! interactive session that adds, removes and displays those memberships.

pub mod person;
pub mod session;
pub mod set;
pub mod text;
pub mod universe;
