//! The whole-integer part of beep generation: a tone is padded to whole
//! cycles so that it ends on a zero crossing, without a click.

use vstd::prelude::*;

verus! {

/// The sample count of a tone padded to whole cycles: the count plus
/// what is missing to the next multiple of the cycle length (a whole
/// cycle more when it is a multiple already).
pub open spec fn padded_count(total: u32, per_cycle: u32) -> int {
    total + per_cycle - total % per_cycle
}

/// The sample count of a tone of `total` samples padded to whole cycles
/// of `per_cycle` samples.
pub fn padded_sample_count(total: u32, per_cycle: u32) -> (count: u32)
    requires
        per_cycle > 0,
        total + per_cycle - total % per_cycle <= u32::MAX,
    ensures
        count == padded_count(total, per_cycle),
{
    total + (per_cycle - total % per_cycle)
}

/// A padded tone holds whole cycles only, and is longer than asked by at
/// most one cycle.
pub proof fn lemma_padded_count_whole_cycles(total: u32, per_cycle: u32)
    requires
        per_cycle > 0,
    ensures
        padded_count(total, per_cycle) % (per_cycle as int) == 0,
        total < padded_count(total, per_cycle) <= total + per_cycle,
{
    let q = total / per_cycle;
    let r = total % per_cycle;
    assert(total == q * per_cycle + r) by (nonlinear_arith)
        requires
            q == total / per_cycle,
            r == total % per_cycle,
            per_cycle > 0,
    ;
    assert(padded_count(total, per_cycle) == (q + 1) * per_cycle) by (nonlinear_arith)
        requires
            total == q * per_cycle + r,
            padded_count(total, per_cycle) == total + per_cycle - r,
    ;
    assert(((q + 1) * per_cycle) % (per_cycle as int) == 0) by (nonlinear_arith)
        requires
            per_cycle > 0,
            q >= 0,
    ;
}

/// The bytes of a stereo 16-bit buffer of `samples` frames.
pub fn beep_bytes(samples: u32) -> (bytes: u32)
    requires
        samples * 4 <= u32::MAX,
    ensures
        bytes == samples * 4,
{
    samples * 4
}

} // verus!
