//! The leaf capability: 32-bit signed addition.
//!
//! Overflow policy: the adder faults. A sum that does not fit in 32 signed
//! bits is never wrapped or clamped; the call ends in a boundary fault.

use vstd::prelude::*;
use crate::fault::CallError;

verus! {

/// True when `v` is a value of the 32-bit signed type.
pub open spec fn fits_s32(v: int) -> bool {
    i32::MIN <= v <= i32::MAX
}

/// What `add` returns: the exact sum where it fits, a boundary fault where it
/// does not.
pub open spec fn add_outcome(a: i32, b: i32) -> Result<i32, CallError> {
    if fits_s32(a + b) {
        Ok((a + b) as i32)
    } else {
        Err(CallError::BoundaryFault)
    }
}

/// Adds two 32-bit signed integers, faulting on overflow.
pub fn add(a: i32, b: i32) -> (r: Result<i32, CallError>)
    ensures
        r == add_outcome(a, b),
{
    match a.checked_add(b) {
        Some(v) => Ok(v),
        None => Err(CallError::BoundaryFault),
    }
}

} // verus!
