//! The arithmetic of progress: fraction done, percentage, rate, time
//! left, and cells of a meter. All of it is exact integer arithmetic.

use vstd::prelude::*;
use vstd::arithmetic::div_mod::{lemma_div_is_ordered, lemma_fundamental_div_mod_converse};
use crate::model::{
    block_units,
    clamp_count,
    percent,
    progress_done,
    rate_whole,
    remaining_secs,
    solid_cells,
};
use crate::styles::format::NANOS_PER_SEC;

verus! {

/// `a * b / d` for `a <= d`, which is at most `b`.
proof fn lemma_scaled_bound(a: int, b: int, d: int)
    requires
        0 <= a <= d,
        0 <= b,
        0 < d,
    ensures
        0 <= a * b / d <= b,
{
    assert(0 <= a * b <= d * b) by (nonlinear_arith)
        requires
            0 <= a <= d,
            0 <= b,
    ;
    lemma_div_is_ordered(0, a * b, d);
    lemma_div_is_ordered(a * b, d * b, d);
    assert(d * b == b * d + 0) by (nonlinear_arith);
    lemma_fundamental_div_mod_converse(d * b, d, b, 0);
}

/// Splitting `b` by `d` before scaling gives the same quotient.
proof fn lemma_scaled_split(a: int, b: int, d: int)
    requires
        0 <= a,
        0 <= b,
        0 < d,
    ensures
        a * b / d == a * (b / d) + a * (b % d) / d,
{
    let q = b / d;
    let r = b % d;
    let q2 = a * r / d;
    let r2 = a * r % d;
    assert(b == q * d + r && 0 <= r < d) by (nonlinear_arith)
        requires
            q == b / d,
            r == b % d,
            0 < d,
            0 <= b,
    ;
    assert(a * r == q2 * d + r2 && 0 <= r2 < d) by (nonlinear_arith)
        requires
            q2 == a * r / d,
            r2 == a * r % d,
            0 < d,
    ;
    assert(a * b == (a * q + q2) * d + r2) by (nonlinear_arith)
        requires
            b == q * d + r,
            a * r == q2 * d + r2,
    ;
    lemma_fundamental_div_mod_converse(a * b, d, a * q + q2, r2);
}

/// The fraction done lies between nothing and all, and is all exactly
/// from the total on; the percentage lies between 0 and 100, and is 100
/// exactly from the total on.
pub proof fn lemma_progress_bounds(n: nat, total: nat)
    requires
        total > 0,
    ensures
        0 <= progress_done(n, total) <= total,
        progress_done(n, total) == total <==> n >= total,
        n <= total ==> progress_done(n, total) == n,
        0 <= percent(n, total) <= 100,
        percent(n, total) == 100 <==> n >= total,
{
    let done = progress_done(n, total) as int;
    lemma_scaled_bound(done, 100, total as int);
    if n >= total {
        assert(total * 100 == 100 * total + 0) by (nonlinear_arith);
        lemma_fundamental_div_mod_converse(total as int * 100, total as int, 100, 0);
    } else {
        assert(done * 100 < 100 * total) by (nonlinear_arith)
            requires
                done < total,
        ;
        if done * 100 / (total as int) >= 100 {
            assert(false) by (nonlinear_arith)
                requires
                    done * 100 / (total as int) >= 100,
                    done * 100 < 100 * total,
                    total > 0,
            ;
        }
    }
}

/// A meter never shows more than it has: the cells filled are at most the
/// cells of the meter, and the units filled at most the units of all its
/// cells, whole cells among them at most the cells of the meter.
pub proof fn lemma_meter_bounds(done: nat, total: nat, ncols: nat, nsyms: nat)
    requires
        0 < total,
        done <= total,
    ensures
        solid_cells(done, total, ncols) <= ncols,
        done == total ==> solid_cells(done, total, ncols) == ncols,
        block_units(done, total, ncols, nsyms) <= ncols * nsyms,
        nsyms > 0 ==> block_units(done, total, ncols, nsyms) / nsyms <= ncols,
{
    lemma_scaled_bound(done as int, ncols as int, total as int);
    assert(ncols * done == done * ncols) by (nonlinear_arith);
    if done == total {
        assert(ncols * total == ncols * total + 0);
        lemma_fundamental_div_mod_converse(
            ncols as int * total as int,
            total as int,
            ncols as int,
            0,
        );
    }
    assert(0 <= ncols * nsyms) by (nonlinear_arith)
        requires
            0 <= ncols,
            0 <= nsyms,
    ;
    lemma_scaled_bound(done as int, (ncols * nsyms) as int, total as int);
    assert(done * ncols * nsyms == done * (ncols * nsyms)) by (nonlinear_arith);
    if nsyms > 0 {
        let units = block_units(done, total, ncols, nsyms);
        assert(units / nsyms <= ncols) by (nonlinear_arith)
            requires
                units <= ncols * nsyms,
                nsyms > 0,
        ;
    }
}

/// The numerator of the fraction done.
pub fn done_of(n: u64, total: u64) -> (done: u64)
    ensures
        done == progress_done(n as nat, total as nat),
{
    if n >= total {
        total
    } else {
        n
    }
}

/// The whole percentage done.
pub fn percent_of(n: u64, total: u64) -> (p: u64)
    requires
        total > 0,
    ensures
        p == percent(n as nat, total as nat),
        p <= 100,
{
    proof {
        lemma_progress_bounds(n as nat, total as nat);
    }
    let done = done_of(n, total);
    ((done as u128) * 100 / (total as u128)) as u64
}

/// A count of up to 128 bits brought down to 64.
fn clamped(x: u128) -> (r: u64)
    ensures
        r == clamp_count(x as nat),
{
    if x > u64::MAX as u128 {
        u64::MAX
    } else {
        x as u64
    }
}

/// Whole iterations per second.
pub fn whole_rate(count: u64, elapsed: u64) -> (r: u64)
    ensures
        r == rate_whole(count as nat, elapsed as nat),
{
    if count == 0 || elapsed == 0 {
        0
    } else {
        assert(count * NANOS_PER_SEC <= 0xffff_ffff_ffff_ffff * 1_000_000_000) by (nonlinear_arith)
            requires
                count <= 0xffff_ffff_ffff_ffff,
                NANOS_PER_SEC == 1_000_000_000,
        ;
        clamped((count as u128) * (NANOS_PER_SEC as u128) / (elapsed as u128))
    }
}

/// Whole seconds left at the rate seen so far.
pub fn remaining(count: u64, total: u64, elapsed: u64) -> (r: u64)
    requires
        count <= total,
    ensures
        r == remaining_secs(count as nat, total as nat, elapsed as nat),
{
    if count == 0 {
        0
    } else {
        let left: u128 = (total - count) as u128;
        assert(left * elapsed <= 0xffff_ffff_ffff_ffff * 0xffff_ffff_ffff_ffff) by (nonlinear_arith)
            requires
                left <= 0xffff_ffff_ffff_ffff,
                elapsed <= 0xffff_ffff_ffff_ffff,
        ;
        assert(count * NANOS_PER_SEC <= 0xffff_ffff_ffff_ffff * 1_000_000_000) by (nonlinear_arith)
            requires
                count <= 0xffff_ffff_ffff_ffff,
                NANOS_PER_SEC == 1_000_000_000,
        ;
        assert(count * NANOS_PER_SEC > 0) by (nonlinear_arith)
            requires
                count > 0,
                NANOS_PER_SEC == 1_000_000_000,
        ;
        clamped(left * (elapsed as u128) / ((count as u128) * (NANOS_PER_SEC as u128)))
    }
}

/// Whole cells of a solid meter that are filled.
pub fn cells_of(done: u64, total: u64, ncols: u16) -> (cells: u16)
    requires
        0 < total,
        done <= total,
    ensures
        cells == solid_cells(done as nat, total as nat, ncols as nat),
        cells <= ncols,
{
    proof {
        lemma_scaled_bound(done as int, ncols as int, total as int);
        assert(ncols * done == done * ncols) by (nonlinear_arith);
        assert(done * ncols <= 0xffff_ffff_ffff_ffff * 0xffff) by (nonlinear_arith)
            requires
                done <= 0xffff_ffff_ffff_ffff,
                ncols <= 0xffff,
        ;
    }
    ((ncols as u128) * (done as u128) / (total as u128)) as u16
}

/// Sub-cell units of a block meter that are filled.
pub fn units_of(done: u64, total: u64, ncols: u16, nsyms: u64) -> (units: u128)
    requires
        0 < total,
        done <= total,
    ensures
        units == block_units(done as nat, total as nat, ncols as nat, nsyms as nat),
        units <= ncols * nsyms,
{
    proof {
        assert(ncols * nsyms <= 0xffff * 0xffff_ffff_ffff_ffff) by (nonlinear_arith)
            requires
                ncols <= 0xffff,
                nsyms <= 0xffff_ffff_ffff_ffff,
        ;
    }
    let width: u128 = (ncols as u128) * (nsyms as u128);
    let q = width / (total as u128);
    let r = width % (total as u128);
    proof {
        lemma_scaled_bound(done as int, width as int, total as int);
        lemma_scaled_split(done as int, width as int, total as int);
        assert(done * ncols * nsyms == done * (ncols * nsyms)) by (nonlinear_arith);
        assert(done * r <= 0xffff_ffff_ffff_ffff * 0xffff_ffff_ffff_ffff) by (nonlinear_arith)
            requires
                done <= 0xffff_ffff_ffff_ffff,
                r <= 0xffff_ffff_ffff_ffff,
        ;
        assert(0 <= done * q) by (nonlinear_arith)
            requires
                0 <= done,
                0 <= q,
        ;
        assert(0 <= done * r / (total as int)) by (nonlinear_arith)
            requires
                0 <= done,
                0 <= r,
                0 < total,
        ;
    }
    (done as u128) * q + (done as u128) * r / (total as u128)
}

} // verus!
