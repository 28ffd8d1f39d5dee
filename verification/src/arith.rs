//! Small integer helpers shared by the motor and encoder code.

use vstd::prelude::*;

verus! {

/// `a.rem_euclid(m)` for a positive modulus: the least non-negative remainder.
pub fn rem_euclid_i32(a: i32, m: i32) -> (r: i32)
    requires
        m > 0,
    ensures
        r == a % m,
        0 <= r < m,
{
    match a.checked_rem_euclid(m) {
        Some(r) => r,
        None => {
            proof {
                assert(false);
            }
            0
        },
    }
}

} // verus!
