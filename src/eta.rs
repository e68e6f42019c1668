//! Projection of the time left until a reading reaches its maximum.
use vstd::prelude::*;

verus! {

/// The whole seconds left until `max`, at the speed observed from `v_first` to
/// `v_last` over `elapsed_ms` milliseconds; `None` (unknown) when no time has
/// passed, the value did not rise, or the target is already exceeded.
pub open spec fn eta_of(v_first: u64, v_last: u64, max: u64, elapsed_ms: u64) -> Option<u128> {
    if elapsed_ms > 0 && v_first < v_last && v_last <= max {
        Some((((max - v_last) * elapsed_ms) / ((v_last - v_first) * 1000)) as u128)
    } else {
        None
    }
}

/// Computes `eta_of` exactly, in integer arithmetic: it never divides by zero
/// and never reports a negative time.
pub fn estimate_eta(v_first: u64, v_last: u64, max: u64, elapsed_ms: u64) -> (r: Option<u128>)
    ensures
        r == eta_of(v_first, v_last, max, elapsed_ms),
{
    if elapsed_ms == 0 || v_first >= v_last || v_last > max {
        return None;
    }
    let left: u128 = (max - v_last) as u128;
    let gained: u128 = (v_last - v_first) as u128;
    let dt: u128 = elapsed_ms as u128;
    assert(left * dt <= 0xffff_ffff_ffff_ffff * 0xffff_ffff_ffff_ffffu128) by (nonlinear_arith)
        requires
            left <= 0xffff_ffff_ffff_ffffu128,
            dt <= 0xffff_ffff_ffff_ffffu128,
    ;
    let num: u128 = left * dt;
    let den: u128 = gained * 1000;
    Some(num / den)
}

/// Without a rise in value the completion time is unknown, whatever the
/// target and the elapsed time.
pub proof fn lemma_no_rise_no_eta(v_first: u64, v_last: u64, max: u64, elapsed_ms: u64)
    requires
        v_last <= v_first,
    ensures
        eta_of(v_first, v_last, max, elapsed_ms) is None,
{
}

} // verus!
