use vstd::prelude::*;

verus! {

/// The soft heap cap handed back to the engine when it reports that usage
/// `current` is near its limit: the current usage enlarged by `multiplier`,
/// which leaves the supervisor a window in which to terminate the engine.
pub open spec fn grace_cap(current: nat, multiplier: nat) -> nat {
    current * multiplier
}

/// Computes the enlarged soft cap for a near-heap-limit notification; a cap
/// beyond the address space is held at `usize::MAX`.
pub fn near_heap_limit_cap(current: usize, multiplier: u64) -> (r: usize)
    ensures
        grace_cap(current as nat, multiplier as nat) <= usize::MAX ==> r == grace_cap(
            current as nat,
            multiplier as nat,
        ),
        grace_cap(current as nat, multiplier as nat) > usize::MAX ==> r == usize::MAX,
{
    if current == 0 {
        return 0;
    }
    if multiplier > usize::MAX as u64 {
        assert(current * multiplier >= multiplier) by (nonlinear_arith)
            requires
                current >= 1,
        ;
        return usize::MAX;
    }
    let m: usize = multiplier as usize;
    match current.checked_mul(m) {
        Some(v) => v,
        None => usize::MAX,
    }
}

} // verus!
