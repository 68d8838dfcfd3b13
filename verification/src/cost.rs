//! The cost engine: the quadratic price of a batch of vote weights.
//!
//! A weight `w` costs `w * w` credits; a batch costs the sum of its members'
//! prices. Every step saturates at `u64::MAX`, so pricing never fails — it
//! clamps. [`lemma_cost_of_weights_is_clamped_sum`] shows that the folded,
//! step-by-step saturating computation equals the mathematical sum of squares
//! clamped once at the top.

use vstd::prelude::*;

verus! {

/// Clamp an unbounded integer into the `u64` range.
pub open spec fn clamp_u64(x: int) -> u64 {
    if x > u64::MAX {
        u64::MAX
    } else if x < 0 {
        0u64
    } else {
        x as u64
    }
}

/// The quadratic price of a single weight: `w * w`, saturated.
pub open spec fn square_cost(w: u64) -> u64 {
    clamp_u64(w * w)
}

/// The total price of a batch, folded left to right with saturating adds.
/// This mirrors how the executable engine accumulates the total.
pub open spec fn cost_of_weights(ws: Seq<u64>) -> u64
    decreases ws.len(),
{
    if ws.len() == 0 {
        0u64
    } else {
        clamp_u64(cost_of_weights(ws.drop_last()) + square_cost(ws.last()))
    }
}

/// The mathematical sum of squares, with no clamping anywhere.
pub open spec fn sum_of_squares(ws: Seq<u64>) -> int
    decreases ws.len(),
{
    if ws.len() == 0 {
        0
    } else {
        sum_of_squares(ws.drop_last()) + ws.last() * ws.last()
    }
}

pub proof fn lemma_sum_of_squares_nonneg(ws: Seq<u64>)
    ensures
        sum_of_squares(ws) >= 0,
    decreases ws.len(),
{
    if ws.len() > 0 {
        lemma_sum_of_squares_nonneg(ws.drop_last());
        let w = ws.last();
        assert(w * w >= 0) by (nonlinear_arith);
    }
}

/// The law of the cost engine: the saturating fold computes exactly the
/// mathematical sum of the squared weights, clamped at the largest
/// representable value.
pub proof fn lemma_cost_of_weights_is_clamped_sum(ws: Seq<u64>)
    ensures
        cost_of_weights(ws) == clamp_u64(sum_of_squares(ws)),
    decreases ws.len(),
{
    if ws.len() > 0 {
        let prefix = ws.drop_last();
        let w = ws.last();
        lemma_cost_of_weights_is_clamped_sum(prefix);
        lemma_sum_of_squares_nonneg(prefix);
        assert(w * w >= 0) by (nonlinear_arith);
    }
}

/// Squares one weight, saturating at `u64::MAX`.
pub fn saturating_square(w: u64) -> (r: u64)
    ensures
        r == square_cost(w),
{
    match w.checked_mul(w) {
        Some(c) => c,
        None => u64::MAX,
    }
}

} // verus!
