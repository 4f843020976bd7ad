//! The fixed universe of allergen categories: eight names, each bound to a
//! distinct single-bit value, and the mask of all valid bits.

use vstd::prelude::*;

verus! {

pub const EGGS: u32 = 1;
pub const PNTS: u32 = 2;
pub const SHFS: u32 = 4;
pub const STWB: u32 = 8;
pub const TMTO: u32 = 16;
pub const CHLT: u32 = 32;
pub const PLLN: u32 = 64;
pub const CATS: u32 = 128;

/// Union of every category bit; a mask with bits outside it is invalid input.
pub const ALLM: u32 = EGGS | PNTS | SHFS | STWB | TMTO | CHLT | PLLN | CATS;

/// The category bits in declaration order.
pub open spec fn category_bits() -> Seq<u32> {
    seq![EGGS, PNTS, SHFS, STWB, TMTO, CHLT, PLLN, CATS]
}

/// The display name of the category at position `i` of the declaration order.
pub open spec fn category_name(i: int) -> Seq<char> {
    if i == 0 {
        "EGGS"@
    } else if i == 1 {
        "PNTS"@
    } else if i == 2 {
        "SHFS"@
    } else if i == 3 {
        "STWB"@
    } else if i == 4 {
        "TMTO"@
    } else if i == 5 {
        "CHLT"@
    } else if i == 6 {
        "PLLN"@
    } else {
        "CATS"@
    }
}

/// The bit of the category at position `i` of the declaration order.
pub fn category_bit(i: usize) -> (b: u32)
    requires
        i < 8,
    ensures
        b == category_bits()[i as int],
{
    match i {
        0 => EGGS,
        1 => PNTS,
        2 => SHFS,
        3 => STWB,
        4 => TMTO,
        5 => CHLT,
        6 => PLLN,
        _ => CATS,
    }
}

/// The display name of the category at position `i`, as a string slice.
pub fn category_name_str(i: usize) -> (s: &'static str)
    requires
        i < 8,
    ensures
        s@ == category_name(i as int),
{
    match i {
        0 => "EGGS",
        1 => "PNTS",
        2 => "SHFS",
        3 => "STWB",
        4 => "TMTO",
        5 => "CHLT",
        6 => "PLLN",
        _ => "CATS",
    }
}

/// The eight category bits in declaration order, as a vector.
pub fn category_list() -> (v: Vec<u32>)
    ensures
        v@ == category_bits(),
{
    let mut v: Vec<u32> = Vec::new();
    v.push(EGGS);
    v.push(PNTS);
    v.push(SHFS);
    v.push(STWB);
    v.push(TMTO);
    v.push(CHLT);
    v.push(PLLN);
    v.push(CATS);
    proof {
        assert(v@ =~= category_bits());
    }
    v
}

} // verus!
