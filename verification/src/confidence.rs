//! Confidence arithmetic for data-availability sampling.
//!
//! The erasure code doubles every block's data, so a block withholding any
//! data leaves at least half of its matrix unavailable; each independently
//! sampled cell then fails to resolve with probability at least one half.
//! After `c` verified samples the residual probability of unavailable data is
//! at most `2^-c`.  Confidence is therefore `1 - 2^-c`, held here in parts
//! per million so that all arithmetic stays on integers.

use vstd::arithmetic::div_mod::lemma_basic_div;
use vstd::arithmetic::div_mod::lemma_div_denominator;
use vstd::arithmetic::div_mod::lemma_div_is_ordered_by_denominator;
use vstd::prelude::*;

verus! {

/// One million: confidence values and targets are in parts per million.
pub const PPM_SCALE: u64 = 1_000_000;

/// Largest number of cells the sampler will ever request for one block.
pub const MAX_CELL_COUNT: u32 = 30;

/// `2^e`.
pub open spec fn pow2(e: nat) -> nat
    decreases e,
{
    if e == 0 {
        1
    } else {
        2 * pow2((e - 1) as nat)
    }
}

/// The residual failure probability after `e` verified samples, in parts per
/// million, rounded down.
pub open spec fn residual_ppm_spec(e: nat) -> int {
    1_000_000int / (pow2(e) as int)
}

/// Confidence, in parts per million, after `verified` cells have been
/// sampled and verified: `1_000_000 - 1_000_000 / 2^verified`.
pub open spec fn confidence_ppm_spec(verified: nat) -> int {
    1_000_000 - residual_ppm_spec(verified)
}

pub proof fn lemma_pow2_pos(e: nat)
    ensures
        pow2(e) >= 1,
    decreases e,
{
    if e > 0 {
        lemma_pow2_pos((e - 1) as nat);
    }
}

pub proof fn lemma_pow2_monotone(a: nat, b: nat)
    requires
        a <= b,
    ensures
        pow2(a) <= pow2(b),
    decreases b,
{
    if a < b {
        lemma_pow2_monotone(a, (b - 1) as nat);
        lemma_pow2_pos((b - 1) as nat);
    }
}

proof fn lemma_pow2_vals()
    ensures
        pow2(19) == 524288,
        pow2(20) == 1048576,
{
    reveal_with_fuel(pow2, 21);
}

/// The residual term never exceeds the full scale, so the confidence lies
/// between zero and one million.
pub proof fn lemma_confidence_in_range(e: nat)
    ensures
        0 <= residual_ppm_spec(e) <= 1_000_000,
        0 <= confidence_ppm_spec(e) <= 1_000_000,
{
    lemma_pow2_pos(e);
    lemma_div_is_ordered_by_denominator(1_000_000, 1, pow2(e) as int);
}

/// Verifying more cells never lowers the confidence.
pub proof fn lemma_confidence_monotone(a: nat, b: nat)
    requires
        a <= b,
    ensures
        confidence_ppm_spec(a) <= confidence_ppm_spec(b),
{
    lemma_pow2_pos(a);
    lemma_pow2_monotone(a, b);
    lemma_div_is_ordered_by_denominator(1_000_000, pow2(a) as int, pow2(b) as int);
}

/// Dividing by the next power of two halves the quotient exactly.
proof fn lemma_residual_step(e: nat)
    ensures
        residual_ppm_spec(e + 1) == residual_ppm_spec(e) / 2,
{
    lemma_pow2_pos(e);
    lemma_div_denominator(1_000_000, pow2(e) as int, 2);
    assert(pow2(e + 1) == 2 * pow2((e + 1 - 1) as nat));
}

/// Below twenty verified cells, one more verified cell strictly raises the
/// confidence; from twenty cells on the score sits at the full scale.
pub proof fn lemma_confidence_strictly_monotone(a: nat, b: nat)
    requires
        a < b <= 20,
    ensures
        confidence_ppm_spec(a) < confidence_ppm_spec(b),
    decreases b,
{
    let p = (b - 1) as nat;
    lemma_pow2_pos(p);
    lemma_pow2_monotone(p, 19);
    lemma_pow2_vals();
    assert(residual_ppm_spec(p) >= 1) by {
        lemma_div_is_ordered_by_denominator(1_000_000, pow2(p) as int, 524288);
    }
    lemma_residual_step(p);
    if a < p {
        lemma_confidence_strictly_monotone(a, p);
    }
}

/// Computes the confidence, in parts per million, for `verified` verified
/// cells.
pub fn confidence_ppm(verified: u32) -> (r: u64)
    ensures
        r == confidence_ppm_spec(verified as nat),
        r <= PPM_SCALE,
{
    let e: u32 = if verified > 20 {
        20
    } else {
        verified
    };
    let mut p: u64 = 1;
    let mut i: u32 = 0;
    while i < e
        invariant
            i <= e <= 20,
            p == pow2(i as nat),
        decreases e - i,
    {
        proof {
            lemma_pow2_monotone(i as nat, 19);
            lemma_pow2_vals();
        }
        p = p * 2;
        i = i + 1;
    }
    proof {
        lemma_pow2_pos(e as nat);
        lemma_confidence_in_range(e as nat);
        lemma_confidence_in_range(verified as nat);
        if verified > 20 {
            // beyond twenty samples the residual term is already zero
            lemma_pow2_vals();
            lemma_pow2_monotone(20, verified as nat);
            lemma_basic_div(1_000_000, pow2(e as nat) as int);
            lemma_basic_div(1_000_000, pow2(verified as nat) as int);
        }
    }
    1_000_000 - 1_000_000 / p
}

/// Whether `c` is the least cell count whose confidence reaches `target`.
pub open spec fn is_required_cells(target: int, c: nat) -> bool {
    &&& 1 <= c <= 20
    &&& confidence_ppm_spec(c) >= target
    &&& forall|d: nat| 1 <= d < c ==> confidence_ppm_spec(d) < target
}

/// The least cell count whose confidence reaches `target`, never less than
/// one: the sampler always samples at least one cell.
pub open spec fn required_cells_spec(target: int) -> nat {
    choose|c: nat| is_required_cells(target, c)
}

/// Derives how many cells must be sampled and verified to reach the target
/// confidence, given in parts per million.
pub fn required_cell_count(target_ppm: u64) -> (r: u32)
    requires
        target_ppm <= PPM_SCALE,
    ensures
        1 <= r <= MAX_CELL_COUNT,
        confidence_ppm_spec(r as nat) >= target_ppm,
        forall|d: nat| 1 <= d < r ==> confidence_ppm_spec(d) < target_ppm,
        r == required_cells_spec(target_ppm as int),
{
    let mut c: u32 = 1;
    let mut conf: u64 = confidence_ppm(1);
    while conf < target_ppm
        invariant
            1 <= c <= 20,
            target_ppm <= PPM_SCALE,
            conf == confidence_ppm_spec(c as nat),
            forall|d: nat| 1 <= d < c ==> confidence_ppm_spec(d) < target_ppm,
        decreases PPM_SCALE - conf,
    {
        proof {
            // confidence at twenty cells is the full scale, so the loop
            // exits before a twenty-first iteration
            if c == 20 {
                lemma_pow2_vals();
                lemma_basic_div(1_000_000, pow2(20) as int);
                assert(false);
            }
            lemma_confidence_strictly_monotone(c as nat, (c + 1) as nat);
        }
        c = c + 1;
        conf = confidence_ppm(c);
    }
    proof {
        assert(is_required_cells(target_ppm as int, c as nat));
        assert(exists|x: nat| is_required_cells(target_ppm as int, x));
        let w = required_cells_spec(target_ppm as int);
        assert(is_required_cells(target_ppm as int, w));
        if w < c {
            assert(confidence_ppm_spec(w) < target_ppm);
        }
        if (c as nat) < w {
            assert(confidence_ppm_spec(c as nat) < target_ppm);
        }
    }
    c
}

/// Raising the confidence target never lowers the required cell count; with
/// equal targets the count is the same, so the count is a function of the
/// target alone.
pub proof fn lemma_required_cells_monotone(t1: int, t2: int, c1: nat, c2: nat)
    requires
        t1 <= t2,
        1 <= c1,
        confidence_ppm_spec(c1) >= t1,
        forall|d: nat| 1 <= d < c1 ==> confidence_ppm_spec(d) < t1,
        1 <= c2,
        confidence_ppm_spec(c2) >= t2,
        forall|d: nat| 1 <= d < c2 ==> confidence_ppm_spec(d) < t2,
    ensures
        c1 <= c2,
{
    if c2 < c1 {
        assert(confidence_ppm_spec(c2) < t1);
    }
}

} // verus!
