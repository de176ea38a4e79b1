//! Duration synthesis for due items: a jittered multiple of the configured
//! base duration plus a sub-second addition. The random draws come from the
//! process-wide generator behind trusted wrappers; `synth_duration` takes the
//! draws as arguments, so tests can drive it deterministically.

use vstd::prelude::*;

use rand::Rng;

verus! {

/// The exact duration formula on given draws.
pub open spec fn spec_duration(base: int, jitter: int, millis: int) -> int {
    (base + jitter) * 1000 + millis
}

/// A synthesized duration lies within one jitter step and one second of the
/// base: `1000*(base-1) <= d <= 1000*(base+1) + 999`.
pub open spec fn duration_in_bounds(d: int, base: int) -> bool {
    1000 * (base - 1) <= d <= 1000 * (base + 1) + 999
}

/// Synthesize a duration from a base value, a jitter in {-1, 0, 1} and a
/// sub-second addition in [0, 1000).
pub fn synth_duration(base: i32, jitter: i32, millis: i32) -> (d: i64)
    requires
        -1 <= jitter <= 1,
        0 <= millis < 1000,
    ensures
        d == spec_duration(base as int, jitter as int, millis as int),
        duration_in_bounds(d as int, base as int),
{
    (base as i64 + jitter as i64) * 1000 + millis as i64
}

/// Relies on rand's `Rng::gen_range` over the thread-local generator: the
/// result of `gen_range(-1..=1)` lies in that closed range, and the range is
/// non-empty so the call does not panic.
#[verifier::external_body]
fn draw_jitter() -> (j: i32)
    ensures
        -1 <= j <= 1,
{
    rand::thread_rng().gen_range(-1..=1)
}

/// Relies on rand's `Rng::gen_range` over the thread-local generator: the
/// result of `gen_range(0..1000)` lies in that half-open range, and the range
/// is non-empty so the call does not panic.
#[verifier::external_body]
fn draw_millis() -> (m: i32)
    ensures
        0 <= m < 1000,
{
    rand::thread_rng().gen_range(0..1000)
}

/// Draw a jitter and a sub-second addition and synthesize a duration for
/// `base`. Whatever the draws, the result obeys the duration bounds.
pub fn draw_duration(base: i32) -> (d: i64)
    ensures
        duration_in_bounds(d as int, base as int),
        exists|jitter: int, millis: int|
            -1 <= jitter <= 1 && 0 <= millis < 1000 && d == spec_duration(
                base as int,
                jitter,
                millis,
            ),
{
    let jitter = draw_jitter();
    let millis = draw_millis();
    let d = synth_duration(base, jitter, millis);
    proof {
        let j = jitter as int;
        let m = millis as int;
        assert(-1 <= j <= 1 && 0 <= m < 1000 && d == spec_duration(base as int, j, m));
    }
    d
}

} // verus!
