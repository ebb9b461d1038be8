//! Overflow probes: how far repeated multiplication can go in a fixed-width
//! integer before it would wrap.

use vstd::prelude::*;

verus! {

/// Ten to the `n`.
pub open spec fn pow10(n: nat) -> int
    decreases n,
{
    if n == 0 {
        1
    } else {
        10 * pow10((n - 1) as nat)
    }
}

/// The largest power of ten an `i32` can hold, found by repeated plain
/// multiplication: returns the exponent and the value, with
/// `value == 10^exponent <= i32::MAX < 10^(exponent + 1)`. The step that
/// would overflow is never taken.
pub fn panic_overflow1() -> (r: (u32, i32))
    ensures
        r.1 as int == pow10(r.0 as nat),
        pow10(r.0 as nat) <= i32::MAX,
        10 * pow10(r.0 as nat) > i32::MAX,
{
    let mut value: i32 = 1;
    let mut exponent: u32 = 0;
    while value <= i32::MAX / 10
        invariant
            1 <= value,
            value as int == pow10(exponent as nat),
            exponent <= 9,
        decreases i32::MAX - value,
    {
        proof {
            if exponent >= 9 {
                assert(pow10(9) == 1_000_000_000) by {
                    reveal_with_fuel(pow10, 10);
                }
            }
        }
        value = value * 10;
        exponent = exponent + 1;
    }
    (exponent, value)
}

/// The same bound found through `checked_mul`: multiplies by ten until the
/// checked multiplication reports that the product would overflow.
pub fn panic_overflow2() -> (r: (u32, i32))
    ensures
        r.1 as int == pow10(r.0 as nat),
        pow10(r.0 as nat) <= i32::MAX,
        10 * pow10(r.0 as nat) > i32::MAX,
{
    let mut value: i32 = 1;
    let mut exponent: u32 = 0;
    loop
        invariant_except_break
            1 <= value,
            value as int == pow10(exponent as nat),
            exponent <= 9,
        ensures
            value as int == pow10(exponent as nat),
            pow10(exponent as nat) <= i32::MAX,
            10 * pow10(exponent as nat) > i32::MAX,
        decreases i32::MAX - value,
    {
        match value.checked_mul(10) {
            Some(next) => {
                proof {
                    if exponent >= 9 {
                        assert(pow10(9) == 1_000_000_000) by {
                            reveal_with_fuel(pow10, 10);
                        }
                    }
                }
                value = next;
                exponent = exponent + 1;
            },
            None => {
                break;
            },
        }
    }
    (exponent, value)
}

} // verus!
