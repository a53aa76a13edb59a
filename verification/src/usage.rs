//! The figures of the resource page that need no floats.

use vstd::prelude::*;

verus! {

/// The 64-bit count of 100-nanosecond intervals in a `FILETIME`, from its
/// high and low 32-bit halves.
pub fn filetime_value(high: u32, low: u32) -> (r: u64)
    ensures
        r == high * 0x1_0000_0000 + low,
{
    let r = ((high as u64) << 32) | low as u64;
    assert(r == high * 0x1_0000_0000 + low) by (bit_vector)
        requires
            r == ((high as u64) << 32) | low as u64,
    ;
    r
}

/// The processor time of the process: kernel and user time added, stopping
/// at `u64::MAX`.
pub fn process_cpu_time(kernel: u64, user: u64) -> (r: u64)
    ensures
        r == (if kernel + user > u64::MAX {
            u64::MAX as int
        } else {
            kernel + user
        }),
{
    kernel.saturating_add(user)
}

} // verus!
