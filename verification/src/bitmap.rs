//! Sets of seats, one bit per slot, in thirty-two bytes.
//!
//! Slot `s` is bit `s % 8` of byte `s / 8`, counted from the least significant bit.

use vstd::array::{spec_array_fill_for_copy_type, spec_array_update};
use vstd::prelude::*;

verus! {

/// Whether bit `bit` of `byte` is set, counted from the least significant bit.
pub open spec fn byte_has(byte: u8, bit: u8) -> bool {
    byte & (1u8 << bit) != 0
}

/// Whether `slot` is a member of the set.
pub open spec fn has_slot(bits: [u8; 32], slot: int) -> bool {
    0 <= slot < 256 && byte_has(bits[slot / 8], (slot % 8) as u8)
}

/// The number of members below `limit`.
pub open spec fn count_below(bits: [u8; 32], limit: int) -> nat
    decreases limit,
{
    if limit <= 0 {
        0
    } else {
        count_below(bits, limit - 1) + if has_slot(bits, limit - 1) {
            1nat
        } else {
            0nat
        }
    }
}

/// The number of members.
pub open spec fn population(bits: [u8; 32]) -> nat {
    count_below(bits, 256)
}

/// The set without members.
pub open spec fn no_slots() -> [u8; 32] {
    spec_array_fill_for_copy_type::<u8, 32>(0u8)
}

/// The set with `slot` added.
pub open spec fn with_slot(bits: [u8; 32], slot: u8) -> [u8; 32] {
    spec_array_update(bits, slot as int / 8, bits[slot as int / 8] | (1u8 << (slot % 8)))
}

/// The set with `slot` taken out.
pub open spec fn without_slot(bits: [u8; 32], slot: u8) -> [u8; 32] {
    spec_array_update(bits, slot as int / 8, bits[slot as int / 8] & !(1u8 << (slot % 8)))
}

/// The set of the slots below `count`.
pub open spec fn lowest_slots(count: nat) -> [u8; 32]
    decreases count,
{
    if count == 0 {
        no_slots()
    } else {
        with_slot(lowest_slots((count - 1) as nat), (count - 1) as u8)
    }
}

/// Whether `slot` is the smallest slot that is no member.
pub open spec fn is_first_vacant(bits: [u8; 32], slot: int) -> bool {
    &&& 0 <= slot < 256
    &&& !has_slot(bits, slot)
    &&& forall|below: int| 0 <= below < slot ==> has_slot(bits, below)
}

/// Whether every slot is a member.
pub open spec fn is_full(bits: [u8; 32]) -> bool {
    forall|slot: int| 0 <= slot < 256 ==> has_slot(bits, slot)
}

/// The smallest slot that is no member, if there is one.
pub open spec fn first_vacant_slot(bits: [u8; 32]) -> Option<u8> {
    if exists|slot: u8| is_first_vacant(bits, slot as int) {
        Some(choose|slot: u8| is_first_vacant(bits, slot as int))
    } else {
        None
    }
}

proof fn lemma_byte_set(byte: u8, bit: u8, other: u8)
    by (bit_vector)
    requires
        bit < 8,
        other < 8,
    ensures
        byte_has(byte | (1u8 << bit), other) == (other == bit || byte_has(byte, other)),
{
}

proof fn lemma_byte_clear(byte: u8, bit: u8, other: u8)
    by (bit_vector)
    requires
        bit < 8,
        other < 8,
    ensures
        byte_has(byte & !(1u8 << bit), other) == (other != bit && byte_has(byte, other)),
{
}

proof fn lemma_byte_empty(other: u8)
    by (bit_vector)
    requires
        other < 8,
    ensures
        !byte_has(0u8, other),
{
}

proof fn lemma_byte_by_bits(a: u8, b: u8)
    by (bit_vector)
    requires
        byte_has(a, 0) == byte_has(b, 0),
        byte_has(a, 1) == byte_has(b, 1),
        byte_has(a, 2) == byte_has(b, 2),
        byte_has(a, 3) == byte_has(b, 3),
        byte_has(a, 4) == byte_has(b, 4),
        byte_has(a, 5) == byte_has(b, 5),
        byte_has(a, 6) == byte_has(b, 6),
        byte_has(a, 7) == byte_has(b, 7),
    ensures
        a == b,
{
}

/// The empty set has no member.
pub proof fn lemma_no_slots()
    ensures
        forall|slot: int| !has_slot(no_slots(), slot),
        population(no_slots()) == 0,
{
    assert forall|slot: int| !has_slot(no_slots(), slot) by {
        if 0 <= slot < 256 {
            lemma_byte_empty((slot % 8) as u8);
        }
    }
    lemma_count_none(no_slots(), 256);
}

/// Adding a slot makes it a member and changes no other slot.
pub proof fn lemma_with_slot(bits: [u8; 32], slot: u8)
    ensures
        forall|other: int|
            #[trigger] has_slot(with_slot(bits, slot), other) == (other == slot || has_slot(
                bits,
                other,
            )),
{
    assert forall|other: int| #[trigger]
        has_slot(with_slot(bits, slot), other) == (other == slot || has_slot(bits, other)) by {
        let after = with_slot(bits, slot);
        assert(after@ == bits@.update(
            slot as int / 8,
            bits[slot as int / 8] | (1u8 << (slot % 8)),
        ));
        if 0 <= other < 256 {
            if other / 8 == slot as int / 8 {
                lemma_byte_set(bits[slot as int / 8], slot % 8, (other % 8) as u8);
                assert(after[other / 8] == bits[slot as int / 8] | (1u8 << (slot % 8)));
            } else {
                assert(after[other / 8] == bits[other / 8]);
            }
        }
    }
}

/// Taking a slot out leaves it no member and changes no other slot.
pub proof fn lemma_without_slot(bits: [u8; 32], slot: u8)
    ensures
        forall|other: int|
            #[trigger] has_slot(without_slot(bits, slot), other) == (other != slot && has_slot(
                bits,
                other,
            )),
{
    assert forall|other: int| #[trigger]
        has_slot(without_slot(bits, slot), other) == (other != slot && has_slot(
            bits,
            other,
        )) by {
        let after = without_slot(bits, slot);
        assert(after@ == bits@.update(
            slot as int / 8,
            bits[slot as int / 8] & !(1u8 << (slot % 8)),
        ));
        if 0 <= other < 256 {
            if other / 8 == slot as int / 8 {
                lemma_byte_clear(bits[slot as int / 8], slot % 8, (other % 8) as u8);
                assert(after[other / 8] == bits[slot as int / 8] & !(1u8 << (slot % 8)));
            } else {
                assert(after[other / 8] == bits[other / 8]);
            }
        }
    }
}

/// The set of the slots below `count` has those members, and `count` of them.
pub proof fn lemma_lowest_slots(count: nat)
    requires
        count <= 256,
    ensures
        forall|slot: int| has_slot(lowest_slots(count), slot) == (0 <= slot < count),
        population(lowest_slots(count)) == count,
    decreases count,
{
    if count == 0 {
        lemma_no_slots();
    } else {
        let before = lowest_slots((count - 1) as nat);
        lemma_lowest_slots((count - 1) as nat);
        lemma_with_slot(before, (count - 1) as u8);
        lemma_count_insert(before, lowest_slots(count), count - 1);
    }
}

/// A set without members below a limit counts nothing below it.
pub proof fn lemma_count_none(bits: [u8; 32], limit: int)
    requires
        forall|slot: int| 0 <= slot < limit ==> !has_slot(bits, slot),
    ensures
        count_below(bits, limit) == 0,
    decreases limit,
{
    if limit > 0 {
        lemma_count_none(bits, limit - 1);
    }
}

/// Two sets that differ in `slot` alone, which only `after` holds, count the
/// same up to `slot` and one apart beyond it.
pub proof fn lemma_count_step(before: [u8; 32], after: [u8; 32], slot: int, limit: int)
    requires
        0 <= slot < 256,
        !has_slot(before, slot),
        forall|other: int| has_slot(after, other) == (other == slot || has_slot(before, other)),
    ensures
        count_below(after, limit) == count_below(before, limit) + if slot < limit {
            1nat
        } else {
            0nat
        },
    decreases limit,
{
    if limit > 0 {
        lemma_count_step(before, after, slot, limit - 1);
    }
}

/// Adding a slot that was no member makes the set one larger.
pub proof fn lemma_count_insert(before: [u8; 32], after: [u8; 32], slot: int)
    requires
        0 <= slot < 256,
        !has_slot(before, slot),
        forall|other: int| has_slot(after, other) == (other == slot || has_slot(before, other)),
    ensures
        population(after) == population(before) + 1,
{
    lemma_count_step(before, after, slot, 256);
}

/// Taking out a slot that was a member makes the set one smaller.
pub proof fn lemma_count_remove(before: [u8; 32], after: [u8; 32], slot: int)
    requires
        0 <= slot < 256,
        has_slot(before, slot),
        forall|other: int| has_slot(after, other) == (other != slot && has_slot(before, other)),
    ensures
        population(after) + 1 == population(before),
{
    lemma_count_step(after, before, slot, 256);
}

/// A set in which every slot is a member has as many members below a limit
/// as there are slots below it.
pub proof fn lemma_count_full(bits: [u8; 32], limit: int)
    requires
        is_full(bits),
        0 <= limit <= 256,
    ensures
        count_below(bits, limit) == limit,
    decreases limit,
{
    if limit > 0 {
        lemma_count_full(bits, limit - 1);
    }
}

/// A set with fewer than 256 members lacks a slot, and one slot is the
/// smallest that it lacks.
pub proof fn lemma_vacancy(bits: [u8; 32])
    ensures
        population(bits) < 256 ==> first_vacant_slot(bits) is Some,
        is_full(bits) <==> first_vacant_slot(bits) is None,
        first_vacant_slot(bits) matches Some(slot) ==> is_first_vacant(bits, slot as int),
{
    if is_full(bits) {
        lemma_count_full(bits, 256);
    } else {
        let missing = choose|slot: int| 0 <= slot < 256 && !has_slot(bits, slot);
        lemma_least_vacant(bits, missing);
    }
}

proof fn lemma_least_vacant(bits: [u8; 32], missing: int)
    requires
        0 <= missing < 256,
        !has_slot(bits, missing),
    ensures
        exists|slot: u8| is_first_vacant(bits, slot as int),
    decreases missing,
{
    if forall|below: int| 0 <= below < missing ==> has_slot(bits, below) {
        assert(is_first_vacant(bits, missing as u8 as int));
    } else {
        let below = choose|below: int| 0 <= below < missing && !has_slot(bits, below);
        lemma_least_vacant(bits, below);
    }
}

/// No two slots are the smallest that a set lacks.
pub proof fn lemma_one_first_vacant(bits: [u8; 32], a: int, b: int)
    requires
        is_first_vacant(bits, a),
        is_first_vacant(bits, b),
    ensures
        a == b,
{
}

/// The members determine the bytes: two sets with the same members are equal.
pub proof fn lemma_members_fix_bytes(a: [u8; 32], b: [u8; 32])
    requires
        forall|slot: int| 0 <= slot < 256 ==> has_slot(a, slot) == has_slot(b, slot),
    ensures
        a == b,
{
    assert forall|at: int| 0 <= at < 32 implies a[at] == b[at] by {
        assert(has_slot(a, at * 8 + 0) == has_slot(b, at * 8 + 0));
        assert(has_slot(a, at * 8 + 1) == has_slot(b, at * 8 + 1));
        assert(has_slot(a, at * 8 + 2) == has_slot(b, at * 8 + 2));
        assert(has_slot(a, at * 8 + 3) == has_slot(b, at * 8 + 3));
        assert(has_slot(a, at * 8 + 4) == has_slot(b, at * 8 + 4));
        assert(has_slot(a, at * 8 + 5) == has_slot(b, at * 8 + 5));
        assert(has_slot(a, at * 8 + 6) == has_slot(b, at * 8 + 6));
        assert(has_slot(a, at * 8 + 7) == has_slot(b, at * 8 + 7));
        lemma_byte_by_bits(a[at], b[at]);
    }
    assert(a =~= b);
}

/// Whether `slot` is a member.
pub fn contains(bits: &[u8; 32], slot: u8) -> (found: bool)
    ensures
        found == has_slot(*bits, slot as int),
{
    let byte: u8 = bits[(slot / 8) as usize];
    let bit: u8 = slot % 8;
    (byte & (1u8 << bit)) != 0
}

/// Adds `slot` to the set.
pub fn insert(bits: &mut [u8; 32], slot: u8)
    ensures
        *final(bits) == with_slot(*old(bits), slot),
{
    let at: usize = (slot / 8) as usize;
    let bit: u8 = slot % 8;
    let byte: u8 = bits[at];
    bits[at] = byte | (1u8 << bit);
}

/// Takes `slot` out of the set.
pub fn remove(bits: &mut [u8; 32], slot: u8)
    ensures
        *final(bits) == without_slot(*old(bits), slot),
{
    let at: usize = (slot / 8) as usize;
    let bit: u8 = slot % 8;
    let byte: u8 = bits[at];
    bits[at] = byte & !(1u8 << bit);
}

/// The set without members.
pub fn empty() -> (bits: [u8; 32])
    ensures
        bits == no_slots(),
{
    [0u8; 32]
}

/// The set of the slots below `count`.
pub fn lowest(count: u8) -> (bits: [u8; 32])
    ensures
        bits == lowest_slots(count as nat),
{
    let mut bits: [u8; 32] = empty();
    let mut next: u8 = 0;
    while next < count
        invariant
            next <= count,
            bits == lowest_slots(next as nat),
        decreases count - next,
    {
        insert(&mut bits, next);
        next = next + 1;
    }
    bits
}

/// The set that holds `slot` alone.
pub fn only(slot: u8) -> (bits: [u8; 32])
    ensures
        bits == with_slot(no_slots(), slot),
{
    let mut bits: [u8; 32] = empty();
    insert(&mut bits, slot);
    bits
}

/// The smallest slot that is no member; `None` when every slot is one.
pub fn first_vacant(bits: &[u8; 32]) -> (found: Option<u8>)
    ensures
        found == first_vacant_slot(*bits),
{
    let mut slot: u8 = 0;
    loop
        invariant
            forall|below: int| 0 <= below < slot ==> has_slot(*bits, below),
        decreases 256 - slot,
    {
        if !contains(bits, slot) {
            proof {
                lemma_vacancy(*bits);
                assert(is_first_vacant(*bits, slot as int));
                lemma_one_first_vacant(
                    *bits,
                    slot as int,
                    first_vacant_slot(*bits)->Some_0 as int,
                );
            }
            return Some(slot);
        }
        if slot == 255 {
            proof {
                assert(is_full(*bits));
                lemma_vacancy(*bits);
            }
            return None;
        }
        slot = slot + 1;
    }
}

/// The number of members.
pub fn count(bits: &[u8; 32]) -> (members: u16)
    ensures
        members == population(*bits),
{
    let mut members: u16 = 0;
    let mut slot: u16 = 0;
    while slot < 256
        invariant
            slot <= 256,
            members == count_below(*bits, slot as int),
            members <= slot,
        decreases 256 - slot,
    {
        if contains(bits, slot as u8) {
            members = members + 1;
        }
        slot = slot + 1;
    }
    members
}

} // verus!
