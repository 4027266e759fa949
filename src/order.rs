use vstd::prelude::*;

verus! {

/// The sign bit of an IEEE-754 double.
pub const SIGN_BIT: u64 = 0x8000_0000_0000_0000;

/// The position on the number line of the double whose bit pattern is `bits`.
///
/// Non-negative doubles order as their bit patterns; a negative one is placed
/// at minus its magnitude. So for any two doubles that are not NaN, `a < b`
/// exactly when `order_key(a.to_bits()) < order_key(b.to_bits())`, and
/// `-0.0` and `0.0` share the key `0`.
pub open spec fn key_of(bits: u64) -> int {
    if bits < SIGN_BIT {
        bits as int
    } else {
        -((bits - SIGN_BIT) as int)
    }
}

/// Computes `key_of(bits)`.
pub fn order_key(bits: u64) -> (r: i64)
    ensures
        r as int == key_of(bits),
{
    if bits < SIGN_BIT {
        bits as i64
    } else {
        -((bits - SIGN_BIT) as i64)
    }
}

} // verus!
