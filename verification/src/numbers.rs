//! Conversions between 32-bit integers of different signs.

use vstd::prelude::*;

verus! {

/// The signed number with the same 32 bits as an unsigned one.
pub open spec fn signed32(n: int) -> int {
    if n < 0x8000_0000 {
        n
    } else {
        n - 0x1_0000_0000
    }
}

/// The unsigned number with the same 32 bits as a signed one.
pub open spec fn unsigned32(n: int) -> int {
    if n < 0 {
        n + 0x1_0000_0000
    } else {
        n
    }
}

/// Reads the bits of an unsigned number as a signed one.
pub fn to_signed32(n: u32) -> (r: i32)
    ensures
        r as int == signed32(n as int),
{
    if n < 0x8000_0000 {
        n as i32
    } else {
        (n as i64 - 0x1_0000_0000) as i32
    }
}

/// Reads the bits of a signed number as an unsigned one.
pub fn to_unsigned32(n: i32) -> (r: u32)
    ensures
        r as int == unsigned32(n as int),
{
    if n < 0 {
        (n as i64 + 0x1_0000_0000) as u32
    } else {
        n as u32
    }
}

/// Reading the bits of a number with the other sign and back gives the number.
pub proof fn sign_round_trip(n: i32)
    ensures
        signed32(unsigned32(n as int)) == n as int,
{
}

/// Reading a number with the other sign keeps its bits: the value changes by a
/// multiple of 2^32, and by none where it fits.
pub proof fn signs_keep_the_bits(n: u32, m: i32)
    ensures
        i32::MIN <= signed32(n as int) <= i32::MAX,
        (signed32(n as int) - n) % 0x1_0000_0000 == 0,
        n <= i32::MAX ==> signed32(n as int) == n,
        0 <= unsigned32(m as int) <= u32::MAX,
        (unsigned32(m as int) - m) % 0x1_0000_0000 == 0,
        m >= 0 ==> unsigned32(m as int) == m,
{
}

} // verus!
