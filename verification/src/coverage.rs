//! Coverage levels: how much ink a pixel holds, from 0 (none) to 65535
//! (full), the screen blend of two levels, and the threshold that tells ink
//! from background.

use vstd::prelude::*;

verus! {

/// The level that stands for full ink.
pub const FULL_COVERAGE: u16 = 65535;

/// The screen blend of two coverage levels: with levels read as fractions of
/// `FULL_COVERAGE`, the level nearest to `1 - (1 - existing) * (1 - incoming)`.
pub open spec fn screen_of(existing: int, incoming: int) -> int {
    FULL_COVERAGE - ((FULL_COVERAGE - existing) * (FULL_COVERAGE - incoming) + 32767) / 65535
}

/// What the blend leaves uncovered is the level nearest to the product of
/// what the two operands leave uncovered, so the blend never falls below
/// either operand and never exceeds full ink.
pub proof fn lemma_screen_bounds(existing: int, incoming: int)
    requires
        0 <= existing <= FULL_COVERAGE,
        0 <= incoming <= FULL_COVERAGE,
    ensures
        existing <= screen_of(existing, incoming) <= FULL_COVERAGE,
        incoming <= screen_of(existing, incoming) <= FULL_COVERAGE,
        screen_of(existing, incoming) == screen_of(incoming, existing),
        -32767 <= 65535 * (FULL_COVERAGE - screen_of(existing, incoming)) - (FULL_COVERAGE - existing)
            * (FULL_COVERAGE - incoming) <= 32767,
{
    let a = 65535 - existing;
    let b = 65535 - incoming;
    let p = a * b;
    assert(0 <= p <= a * 65535 && p <= 65535 * b && p == b * a) by (nonlinear_arith)
        requires
            0 <= a <= 65535,
            0 <= b <= 65535,
            p == a * b,
    ;
    let q = (p + 32767) / 65535;
    assert(0 <= q <= a && q <= b && -32767 <= 65535 * q - p <= 32767) by (nonlinear_arith)
        requires
            0 <= p <= a * 65535,
            p <= 65535 * b,
            q == (p + 32767) / 65535,
    ;
}

/// Blending with no ink changes nothing, and blending with full ink gives
/// full ink, whichever side the extreme is on.
pub proof fn lemma_screen_extremes(level: int)
    requires
        0 <= level <= FULL_COVERAGE,
    ensures
        screen_of(level, 0) == level,
        screen_of(0, level) == level,
        screen_of(level, FULL_COVERAGE as int) == FULL_COVERAGE,
        screen_of(FULL_COVERAGE as int, level) == FULL_COVERAGE,
{
    let a = 65535 - level;
    assert((a * 65535 + 32767) / 65535 == a && (65535 * a + 32767) / 65535 == a) by (nonlinear_arith)
        requires
            0 <= a,
    ;
}

/// Combines the coverage already on a pixel with incoming coverage.
pub fn screen(existing: u16, incoming: u16) -> (combined: u16)
    ensures
        combined == screen_of(existing as int, incoming as int),
        combined >= existing,
        combined >= incoming,
        incoming == 0 ==> combined == existing,
        existing == 0 ==> combined == incoming,
        incoming == FULL_COVERAGE || existing == FULL_COVERAGE ==> combined == FULL_COVERAGE,
{
    proof {
        lemma_screen_bounds(existing as int, incoming as int);
        lemma_screen_extremes(existing as int);
        lemma_screen_extremes(incoming as int);
    }
    let a: u32 = (FULL_COVERAGE - existing) as u32;
    let b: u32 = (FULL_COVERAGE - incoming) as u32;
    assert(0 <= a * b <= 65535 * 65535) by (nonlinear_arith)
        requires
            0 <= a <= 65535,
            0 <= b <= 65535,
    ;
    let rest: u32 = (a * b + 32767) / 65535;
    FULL_COVERAGE - (rest as u16)
}

/// Whether a pixel of this coverage is ink under `threshold`: only coverage
/// strictly above the threshold counts.
pub open spec fn is_ink(coverage: u16, threshold: u16) -> bool {
    coverage > threshold
}

/// A pixel exactly at the threshold is background, and any pixel above it is
/// ink.
pub proof fn lemma_threshold_boundary(coverage: u16, threshold: u16)
    ensures
        coverage == threshold ==> !is_ink(coverage, threshold),
        coverage > threshold ==> is_ink(coverage, threshold),
        coverage < threshold ==> !is_ink(coverage, threshold),
{
}

} // verus!
