//! The allergen set: a value type wrapping a single bitmask, with set-algebra
//! operations and a canonical rendering of the member names.

use crate::universe::{category_bit, category_bits, category_name, category_name_str, ALLM};
use vstd::prelude::*;

verus! {

/// A subset of the allergen universe, as the bitwise union of member bits.
#[derive(Clone, Copy, Debug, PartialEq, Eq, Structural)]
pub struct Allergen(pub u32);

impl Allergen {
    /// A set holding exactly the bits of `value`.
    pub fn new(value: u32) -> (a: Allergen)
        ensures
            a.0 == value,
    {
        Allergen(value)
    }

    /// True iff every bit of `candidate` is set in the receiver; a multi-bit
    /// `candidate` asks for the whole combination, not for any one bit.
    pub fn contains(&self, candidate: u32) -> (r: bool)
        ensures
            r == (candidate & self.0 == candidate),
    {
        candidate & self.0 == candidate
    }

    /// Sets every bit of `mask` in the receiver; no validation of its own.
    pub fn add(&mut self, mask: u32)
        ensures
            final(self).0 == old(self).0 | mask,
    {
        self.0 = self.0 | mask;
    }

    /// Clears every bit of `mask` from the receiver.
    pub fn remove(&mut self, mask: u32)
        ensures
            final(self).0 == old(self).0 & !mask,
    {
        self.0 = self.0 & !mask;
    }
}

/// The bitwise union of a sequence of masks, starting from the empty set.
pub open spec fn or_all(s: Seq<u32>) -> u32
    decreases s.len(),
{
    if s.len() == 0 {
        0u32
    } else {
        or_all(s.drop_last()) | s.last()
    }
}

/// The members of `mask` among the first `i` categories, in declaration order.
pub open spec fn members_prefix(mask: u32, i: int) -> Seq<u32>
    decreases i,
{
    if i <= 0 {
        Seq::empty()
    } else {
        members_prefix(mask, i - 1) + (if category_bits()[i - 1] & mask == category_bits()[i - 1] {
            seq![category_bits()[i - 1]]
        } else {
            Seq::empty()
        })
    }
}

/// The single-bit masks of the categories present in `mask`, in declaration
/// order.
pub open spec fn members_spec(mask: u32) -> Seq<u32> {
    members_prefix(mask, 8)
}

proof fn lemma_or_all_push(s: Seq<u32>, x: u32)
    ensures
        or_all(s.push(x)) == or_all(s) | x,
{
    assert(s.push(x).drop_last() =~= s);
    assert(s.push(x).last() == x);
}

impl Allergen {
    /// The single-bit masks of the member categories, in declaration order;
    /// bits outside the universe are ignored.
    pub fn members(&self) -> (v: Vec<u32>)
        ensures
            v@ == members_spec(self.0),
    {
        let mut v: Vec<u32> = Vec::new();
        let mut i: usize = 0;
        while i < 8
            invariant
                i <= 8,
                v@ == members_prefix(self.0, i as int),
            decreases 8 - i,
        {
            let b = category_bit(i);
            if self.contains(b) {
                v.push(b);
                proof {
                    assert(v@ =~= members_prefix(self.0, i as int) + seq![b]);
                }
            } else {
                proof {
                    assert(v@ =~= members_prefix(self.0, i as int) + Seq::<u32>::empty());
                }
            }
            i = i + 1;
        }
        v
    }

    /// The set whose mask is the bitwise union of the given masks; doubles as
    /// the aggregation constructor for `members`.
    pub fn from_iter(masks: &Vec<u32>) -> (a: Allergen)
        ensures
            a.0 == or_all(masks@),
    {
        let mut acc: u32 = 0;
        let mut i: usize = 0;
        while i < masks.len()
            invariant
                i <= masks.len(),
                acc == or_all(masks@.take(i as int)),
            decreases masks.len() - i,
        {
            proof {
                assert(masks@.take(i + 1) =~= masks@.take(i as int).push(masks@[i as int]));
                lemma_or_all_push(masks@.take(i as int), masks@[i as int]);
            }
            acc = acc | masks[i];
            i = i + 1;
        }
        proof {
            assert(masks@.take(masks@.len() as int) =~= masks@);
        }
        Allergen(acc)
    }
}

/// Folding the members of a set back together with OR reproduces the mask
/// exactly, for any mask that is a union of valid category bits.
pub proof fn lemma_members_round_trip(mask: u32)
    requires
        mask & ALLM == mask,
    ensures
        or_all(members_spec(mask)) == mask,
{
    lemma_members_fold(mask);
}

/// For an arbitrary mask the fold of the members keeps exactly the valid bits.
pub proof fn lemma_members_fold(mask: u32)
    ensures
        or_all(members_spec(mask)) == mask & ALLM,
{
    let b = category_bits();
    let v0 = or_all(members_prefix(mask, 0));
    let v1 = or_all(members_prefix(mask, 1));
    let v2 = or_all(members_prefix(mask, 2));
    let v3 = or_all(members_prefix(mask, 3));
    let v4 = or_all(members_prefix(mask, 4));
    let v5 = or_all(members_prefix(mask, 5));
    let v6 = or_all(members_prefix(mask, 6));
    let v7 = or_all(members_prefix(mask, 7));
    let v8 = or_all(members_prefix(mask, 8));
    assert(v0 == 0);
    lemma_members_fold_step(mask, 1, v0, v1);
    lemma_members_fold_step(mask, 2, v1, v2);
    lemma_members_fold_step(mask, 3, v2, v3);
    lemma_members_fold_step(mask, 4, v3, v4);
    lemma_members_fold_step(mask, 5, v4, v5);
    lemma_members_fold_step(mask, 6, v5, v6);
    lemma_members_fold_step(mask, 7, v6, v7);
    lemma_members_fold_step(mask, 8, v7, v8);
    assert(v8 == mask & ALLM) by (bit_vector)
        requires
            v1 == v0 | (if 1u32 & mask == 1u32 { 1u32 } else { 0u32 }),
            v2 == v1 | (if 2u32 & mask == 2u32 { 2u32 } else { 0u32 }),
            v3 == v2 | (if 4u32 & mask == 4u32 { 4u32 } else { 0u32 }),
            v4 == v3 | (if 8u32 & mask == 8u32 { 8u32 } else { 0u32 }),
            v5 == v4 | (if 16u32 & mask == 16u32 { 16u32 } else { 0u32 }),
            v6 == v5 | (if 32u32 & mask == 32u32 { 32u32 } else { 0u32 }),
            v7 == v6 | (if 64u32 & mask == 64u32 { 64u32 } else { 0u32 }),
            v8 == v7 | (if 128u32 & mask == 128u32 { 128u32 } else { 0u32 }),
            v0 == 0u32,
    ;
}

proof fn lemma_members_fold_step(mask: u32, i: int, prev: u32, cur: u32)
    requires
        1 <= i <= 8,
        prev == or_all(members_prefix(mask, i - 1)),
        cur == or_all(members_prefix(mask, i)),
    ensures
        cur == prev | (if category_bits()[i - 1] & mask == category_bits()[i - 1] {
            category_bits()[i - 1]
        } else {
            0u32
        }),
{
    let b = category_bits()[i - 1];
    if b & mask == b {
        assert(members_prefix(mask, i) =~= members_prefix(mask, i - 1).push(b));
        lemma_or_all_push(members_prefix(mask, i - 1), b);
    } else {
        assert(members_prefix(mask, i) =~= members_prefix(mask, i - 1));
        assert(prev | 0u32 == prev) by (bit_vector);
    }
}

/// The names of the members of `mask` among the first `i` categories, in
/// declaration order.
pub open spec fn name_parts_prefix(mask: u32, i: int) -> Seq<Seq<char>>
    decreases i,
{
    if i <= 0 {
        Seq::empty()
    } else {
        name_parts_prefix(mask, i - 1) + (if category_bits()[i - 1] & mask == category_bits()[i
            - 1] {
            seq![category_name(i - 1)]
        } else {
            Seq::empty()
        })
    }
}

/// Pieces of text joined by a pipe, with no leading or trailing separator.
pub open spec fn join_parts(parts: Seq<Seq<char>>) -> Seq<char>
    decreases parts.len(),
{
    if parts.len() == 0 {
        Seq::empty()
    } else if parts.len() == 1 {
        parts[0]
    } else {
        join_parts(parts.drop_last()) + seq!['|'] + parts.last()
    }
}

/// The canonical rendering of a mask: `NONE` for the empty set, else the
/// names of the member categories in declaration order, pipe-joined; bits
/// outside the universe contribute nothing.
pub open spec fn render_spec(mask: u32) -> Seq<char> {
    if mask == 0 {
        "NONE"@
    } else {
        join_parts(name_parts_prefix(mask, 8))
    }
}

proof fn lemma_join_parts_push(parts: Seq<Seq<char>>, x: Seq<char>)
    ensures
        parts.len() == 0 ==> join_parts(parts.push(x)) == x,
        parts.len() > 0 ==> join_parts(parts.push(x)) == join_parts(parts) + seq!['|'] + x,
{
    assert(parts.push(x).drop_last() =~= parts);
    assert(parts.push(x).last() == x);
}

impl Allergen {
    /// The canonical text of the set: `NONE` when empty, else the member
    /// names pipe-joined in declaration order.
    pub fn render(&self) -> (s: String)
        ensures
            s@ == render_spec(self.0),
    {
        if self.0 == 0 {
            return "NONE".to_owned();
        }
        let mut buf = String::new();
        let mut first = true;
        let mut i: usize = 0;
        while i < 8
            invariant
                i <= 8,
                buf@ == join_parts(name_parts_prefix(self.0, i as int)),
                first == (name_parts_prefix(self.0, i as int).len() == 0),
            decreases 8 - i,
        {
            let b = category_bit(i);
            if self.contains(b) {
                proof {
                    lemma_join_parts_push(
                        name_parts_prefix(self.0, i as int),
                        category_name(i as int),
                    );
                    assert(name_parts_prefix(self.0, i + 1) =~= name_parts_prefix(
                        self.0,
                        i as int,
                    ).push(category_name(i as int)));
                }
                if !first {
                    buf.append("|");
                    proof {
                        reveal_strlit("|");
                        assert("|"@ =~= seq!['|']);
                    }
                }
                buf.append(category_name_str(i));
                first = false;
            } else {
                proof {
                    assert(name_parts_prefix(self.0, i + 1) =~= name_parts_prefix(
                        self.0,
                        i as int,
                    ));
                }
            }
            i = i + 1;
        }
        buf
    }
}

/// Once `add(m)` ran, `contains(m)` holds: adding then testing the same mask
/// succeeds, for any mask within the valid universe mask.
pub proof fn lemma_add_then_contains(before: u32, m: u32)
    requires
        m & ALLM == m,
    ensures
        m & (before | m) == m,
{
    assert(m & (before | m) == m) by (bit_vector);
}

/// `add` is idempotent: adding a mask twice leaves the same set as adding it
/// once.
pub proof fn lemma_add_idempotent(before: u32, m: u32)
    ensures
        (before | m) | m == before | m,
{
    assert((before | m) | m == before | m) by (bit_vector);
}

/// Once `remove(m)` ran, `contains(m)` no longer holds, for any nonzero mask
/// within the valid universe mask, whatever was in the set before.
pub proof fn lemma_remove_then_not_contains(before: u32, m: u32)
    requires
        m & ALLM == m,
        m != 0,
    ensures
        m & (before & !m) != m,
{
    assert(m != 0 ==> m & (before & !m) != m) by (bit_vector);
}

} // verus!
