//! How many windows of a kernel fit along one axis.

use vstd::prelude::*;
use vstd::arithmetic::div_mod::lemma_remainder_lower;
use vstd::arithmetic::div_mod::lemma_div_pos_is_pos;
use vstd::arithmetic::mul::lemma_mul_inequality;

verus! {

/// How many window positions fit along one axis: a window of `kernel`
/// elements slides in steps of `stride` over `input` elements padded by
/// `pad` on either side. This is `floor((input + 2·pad - kernel) / stride) + 1`.
pub open spec fn out_extent(input: int, kernel: int, stride: int, pad: int) -> int {
    (input + 2 * pad - kernel) / stride + 1
}

/// Whether a window can be placed at all: the stride is positive and the
/// kernel is no larger than the padded input.
pub open spec fn window_valid(input: int, kernel: int, stride: int, pad: int) -> bool {
    stride > 0 && kernel <= input + 2 * pad
}

/// Every window position lies inside the padded input.
pub proof fn lemma_window_fits(input: int, kernel: int, stride: int, pad: int, o: int)
    requires
        0 <= input,
        0 <= kernel,
        0 <= pad,
        window_valid(input, kernel, stride, pad),
        0 <= o < out_extent(input, kernel, stride, pad),
    ensures
        o * stride + kernel <= input + 2 * pad,
        0 <= o * stride,
{
    let span = input + 2 * pad - kernel;
    lemma_remainder_lower(span, stride);
    lemma_mul_inequality(o, span / stride, stride);
    lemma_mul_inequality(0, o, stride);
}

/// Without padding and with a kernel of at least one element there are no
/// more window positions than input elements.
pub proof fn lemma_out_extent_bound(input: int, kernel: int, stride: int)
    requires
        1 <= kernel <= input,
        stride > 0,
    ensures
        1 <= out_extent(input, kernel, stride, 0) <= input,
{
    let span = input - kernel;
    lemma_remainder_lower(span, stride);
    lemma_div_pos_is_pos(span, stride);
    assert(span / stride <= span) by (nonlinear_arith)
        requires
            span >= (span / stride) * stride,
            stride >= 1,
            span / stride >= 0,
    ;
}

/// The number of window positions along one axis, if a window can be placed
/// and the padded extent can be computed.
pub fn window_count(input: usize, kernel: usize, stride: usize, pad: usize) -> (r: Option<usize>)
    ensures
        r matches Some(n) ==> window_valid(input as int, kernel as int, stride as int, pad as int)
            && n == out_extent(input as int, kernel as int, stride as int, pad as int) && n >= 1
            && input + 2 * pad < usize::MAX,
        r is None ==> !window_valid(input as int, kernel as int, stride as int, pad as int)
            || input + 2 * pad >= usize::MAX,
{
    if stride == 0 {
        return None;
    }
    let padded = match pad.checked_mul(2) {
        Some(p) => match p.checked_add(input) {
            Some(v) => v,
            None => {
                return None;
            },
        },
        None => {
            return None;
        },
    };
    if padded == usize::MAX || kernel > padded {
        return None;
    }
    proof {
        lemma_div_pos_is_pos(padded - kernel, stride as int);
        lemma_remainder_lower(padded - kernel, stride as int);
        assert((padded - kernel) / (stride as int) <= padded - kernel) by (nonlinear_arith)
            requires
                padded - kernel >= ((padded - kernel) / (stride as int)) * stride,
                stride >= 1,
                (padded - kernel) / (stride as int) >= 0,
        ;
    }
    Some((padded - kernel) / stride + 1)
}

} // verus!
