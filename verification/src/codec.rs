//! Integers of eight bytes, as the instruction and the records hold them.

use borsh::{BorshDeserialize, BorshSerialize};
use vstd::prelude::*;

verus! {

/// The number that eight bytes make, least significant byte first.
pub open spec fn le_value(bytes: Seq<u8>) -> int {
    bytes[0] + bytes[1] * 0x100 + bytes[2] * 0x1_0000 + bytes[3] * 0x100_0000 + bytes[4]
        * 0x1_0000_0000 + bytes[5] * 0x100_0000_0000 + bytes[6] * 0x1_0000_0000_0000 + bytes[7]
        * 0x100_0000_0000_0000
}

/// The number that eight bytes make, most significant byte first.
pub open spec fn be_value(bytes: Seq<u8>) -> int {
    bytes[7] + bytes[6] * 0x100 + bytes[5] * 0x1_0000 + bytes[4] * 0x100_0000 + bytes[3]
        * 0x1_0000_0000 + bytes[2] * 0x100_0000_0000 + bytes[1] * 0x1_0000_0000_0000 + bytes[0]
        * 0x100_0000_0000_0000
}

/// The eight bytes of a number below 2^64, least significant byte first.
pub open spec fn le_bytes(value: int) -> Seq<u8> {
    seq![
        (value % 0x100) as u8,
        (value / 0x100 % 0x100) as u8,
        (value / 0x1_0000 % 0x100) as u8,
        (value / 0x100_0000 % 0x100) as u8,
        (value / 0x1_0000_0000 % 0x100) as u8,
        (value / 0x100_0000_0000 % 0x100) as u8,
        (value / 0x1_0000_0000_0000 % 0x100) as u8,
        (value / 0x100_0000_0000_0000 % 0x100) as u8,
    ]
}

/// The signed number that shares its sixty-four bits with a number below 2^64.
pub open spec fn signed(value: int) -> int {
    if value >= 0x8000_0000_0000_0000 {
        value - 0x1_0000_0000_0000_0000
    } else {
        value
    }
}

/// The number below 2^64 that shares its sixty-four bits with a signed number.
pub open spec fn unsigned(value: int) -> int {
    if value < 0 {
        value + 0x1_0000_0000_0000_0000
    } else {
        value
    }
}

/// Eight bytes make a number below 2^64.
pub proof fn lemma_value_bounds(bytes: Seq<u8>)
    requires
        bytes.len() >= 8,
    ensures
        0 <= le_value(bytes) < 0x1_0000_0000_0000_0000,
        0 <= be_value(bytes) < 0x1_0000_0000_0000_0000,
{
}

proof fn lemma_split(v: u64, b0: u64, b1: u64, b2: u64, b3: u64, b4: u64, b5: u64, b6: u64, b7: u64)
    by (bit_vector)
    requires
        b0 == v % 0x100,
        b1 == v / 0x100 % 0x100,
        b2 == v / 0x1_0000 % 0x100,
        b3 == v / 0x100_0000 % 0x100,
        b4 == v / 0x1_0000_0000 % 0x100,
        b5 == v / 0x100_0000_0000 % 0x100,
        b6 == v / 0x1_0000_0000_0000 % 0x100,
        b7 == v / 0x100_0000_0000_0000 % 0x100,
    ensures
        v == b0 + b1 * 0x100 + b2 * 0x1_0000 + b3 * 0x100_0000 + b4 * 0x1_0000_0000 + b5
            * 0x100_0000_0000 + b6 * 0x1_0000_0000_0000 + b7 * 0x100_0000_0000_0000,
{
}

proof fn lemma_join(v: u64, b0: u64, b1: u64, b2: u64, b3: u64, b4: u64, b5: u64, b6: u64, b7: u64)
    by (bit_vector)
    requires
        b0 < 0x100,
        b1 < 0x100,
        b2 < 0x100,
        b3 < 0x100,
        b4 < 0x100,
        b5 < 0x100,
        b6 < 0x100,
        b7 < 0x100,
        v == b0 + b1 * 0x100 + b2 * 0x1_0000 + b3 * 0x100_0000 + b4 * 0x1_0000_0000 + b5
            * 0x100_0000_0000 + b6 * 0x1_0000_0000_0000 + b7 * 0x100_0000_0000_0000,
    ensures
        b0 == v % 0x100,
        b1 == v / 0x100 % 0x100,
        b2 == v / 0x1_0000 % 0x100,
        b3 == v / 0x100_0000 % 0x100,
        b4 == v / 0x1_0000_0000 % 0x100,
        b5 == v / 0x100_0000_0000 % 0x100,
        b6 == v / 0x1_0000_0000_0000 % 0x100,
        b7 == v / 0x100_0000_0000_0000 % 0x100,
{
}

/// The bytes of a number make that number again.
pub proof fn lemma_bytes_then_value(value: int)
    requires
        0 <= value < 0x1_0000_0000_0000_0000,
    ensures
        le_bytes(value).len() == 8,
        le_value(le_bytes(value)) == value,
{
    let v = value as u64;
    let bytes = le_bytes(value);
    lemma_split(
        v,
        bytes[0] as u64,
        bytes[1] as u64,
        bytes[2] as u64,
        bytes[3] as u64,
        bytes[4] as u64,
        bytes[5] as u64,
        bytes[6] as u64,
        bytes[7] as u64,
    );
}

/// The number that eight bytes make has those bytes.
pub proof fn lemma_value_then_bytes(bytes: Seq<u8>)
    requires
        bytes.len() == 8,
    ensures
        le_bytes(le_value(bytes)) == bytes,
{
    let v = le_value(bytes) as u64;
    lemma_join(
        v,
        bytes[0] as u64,
        bytes[1] as u64,
        bytes[2] as u64,
        bytes[3] as u64,
        bytes[4] as u64,
        bytes[5] as u64,
        bytes[6] as u64,
        bytes[7] as u64,
    );
    assert(le_bytes(le_value(bytes)) =~= bytes);
}

/// Signed and unsigned reading of the same bits undo each other.
pub proof fn lemma_signed_unsigned(value: int)
    ensures
        -0x8000_0000_0000_0000 <= value < 0x8000_0000_0000_0000 ==> signed(unsigned(value))
            == value && 0 <= unsigned(value) < 0x1_0000_0000_0000_0000,
        0 <= value < 0x1_0000_0000_0000_0000 ==> unsigned(signed(value)) == value
            && -0x8000_0000_0000_0000 <= signed(value) < 0x8000_0000_0000_0000,
{
}

/// Calls `deserialize` of borsh for `u64`: it fails on fewer than eight
/// bytes, and else reads the first eight, least significant byte first.
#[verifier::external_body]
pub(crate) fn read_u64(bytes: &[u8]) -> (value: Option<u64>)
    ensures
        bytes@.len() < 8 ==> value is None,
        bytes@.len() >= 8 ==> value == Some(le_value(bytes@) as u64),
{
    let mut rest: &[u8] = bytes;
    match u64::deserialize(&mut rest) {
        Ok(value) => Some(value),
        Err(_) => None,
    }
}

/// Calls `deserialize` of borsh for `i64`: it fails on fewer than eight
/// bytes, and else reads the first eight, least significant byte first, as a
/// number in two's complement.
#[verifier::external_body]
pub(crate) fn read_i64(bytes: &[u8]) -> (value: Option<i64>)
    ensures
        bytes@.len() < 8 ==> value is None,
        bytes@.len() >= 8 ==> value == Some(signed(le_value(bytes@)) as i64),
{
    let mut rest: &[u8] = bytes;
    match i64::deserialize(&mut rest) {
        Ok(value) => Some(value),
        Err(_) => None,
    }
}

/// Calls `try_to_vec` of borsh for `u64`: eight bytes, least significant
/// byte first.
#[verifier::external_body]
pub(crate) fn u64_bytes(value: u64) -> (bytes: Vec<u8>)
    ensures
        bytes@ == le_bytes(value as int),
{
    value.try_to_vec().unwrap_or_default()
}

/// Calls `try_to_vec` of borsh for `i64`: the eight bytes of the number in
/// two's complement, least significant byte first.
#[verifier::external_body]
pub(crate) fn i64_bytes(value: i64) -> (bytes: Vec<u8>)
    ensures
        bytes@ == le_bytes(unsigned(value as int)),
{
    value.try_to_vec().unwrap_or_default()
}

/// The number that eight bytes make, most significant byte first.
pub fn u64_from_be(bytes: &[u8]) -> (value: u64)
    requires
        bytes@.len() == 8,
    ensures
        value == be_value(bytes@),
{
    let b0: u64 = bytes[0] as u64;
    let b1: u64 = bytes[1] as u64;
    let b2: u64 = bytes[2] as u64;
    let b3: u64 = bytes[3] as u64;
    let b4: u64 = bytes[4] as u64;
    let b5: u64 = bytes[5] as u64;
    let b6: u64 = bytes[6] as u64;
    let b7: u64 = bytes[7] as u64;
    b7 + b6 * 0x100 + b5 * 0x1_0000 + b4 * 0x100_0000 + b3 * 0x1_0000_0000 + b2 * 0x100_0000_0000
        + b1 * 0x1_0000_0000_0000 + b0 * 0x100_0000_0000_0000
}

/// The signed number that eight bytes make in two's complement, most
/// significant byte first.
pub fn i64_from_be(bytes: &[u8]) -> (value: i64)
    requires
        bytes@.len() == 8,
    ensures
        value == signed(be_value(bytes@)),
{
    let raw: u64 = u64_from_be(bytes);
    if raw >= 0x8000_0000_0000_0000 {
        let low: i64 = (raw - 0x8000_0000_0000_0000) as i64;
        low + i64::MIN
    } else {
        raw as i64
    }
}

} // verus!
