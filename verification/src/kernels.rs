//! Sums, dot products and elementwise operations on flat vectors, each
//! with the order of its accumulation fixed by a recursive definition.

use vstd::prelude::*;
use crate::scalar::Scalar;
use crate::shape::{flat2, lemma_flat2_bound, lemma_flat2_order};

verus! {

/// The sum of products of `n` elements of `a`, taken from `a0` in steps of
/// `sa`, with `n` elements of `b`, taken from `b0` in steps of `sb`,
/// accumulated from zero in order of increasing index.
pub open spec fn dot<T: Scalar>(
    a: Seq<T>,
    a0: int,
    sa: int,
    b: Seq<T>,
    b0: int,
    sb: int,
    n: nat,
) -> T
    decreases n,
{
    if n == 0 {
        T::zero_spec()
    } else {
        dot(a, a0, sa, b, b0, sb, (n - 1) as nat).plus_spec(
            a[a0 + (n - 1) * sa].times_spec(b[b0 + (n - 1) * sb]),
        )
    }
}

/// The sum of `n` elements of `a`, taken from `a0` in steps of `sa`,
/// accumulated from zero in order of increasing index.
pub open spec fn strided_sum<T: Scalar>(a: Seq<T>, a0: int, sa: int, n: nat) -> T
    decreases n,
{
    if n == 0 {
        T::zero_spec()
    } else {
        strided_sum(a, a0, sa, (n - 1) as nat).plus_spec(a[a0 + (n - 1) * sa])
    }
}

/// A vector's length fits in `usize`.
pub proof fn lemma_len_fits<T>(v: &Vec<T>)
    ensures
        v@.len() <= usize::MAX,
{
    assert(v@.len() == v.len());
}

proof fn lemma_stride_step(a0: int, sa: int, t: int, n: int)
    by (nonlinear_arith)
    requires
        0 <= t < n,
        0 <= sa,
    ensures
        a0 + t * sa <= a0 + (n - 1) * sa,
        t + 1 < n ==> a0 + t * sa + sa == a0 + (t + 1) * sa && a0 + (t + 1) * sa <= a0 + (n - 1)
            * sa,
{
}

pub fn strided_dot<T: Scalar>(
    a: &Vec<T>,
    a0: usize,
    sa: usize,
    b: &Vec<T>,
    b0: usize,
    sb: usize,
    n: usize,
) -> (r: T)
    requires
        n > 0 ==> a0 + (n - 1) * sa < a@.len() && b0 + (n - 1) * sb < b@.len(),
    ensures
        r == dot(a@, a0 as int, sa as int, b@, b0 as int, sb as int, n as nat),
{
    assert(a@.len() == a.len() && b@.len() == b.len());
    let mut sum = T::zero();
    let mut ia = a0;
    let mut ib = b0;
    let mut t: usize = 0;
    while t < n
        invariant
            t <= n,
            a@.len() <= usize::MAX,
            b@.len() <= usize::MAX,
            n > 0 ==> a0 + (n - 1) * sa < a@.len() && b0 + (n - 1) * sb < b@.len(),
            t < n ==> ia == a0 + t * sa && ib == b0 + t * sb,
            sum == dot(a@, a0 as int, sa as int, b@, b0 as int, sb as int, t as nat),
        decreases n - t,
    {
        proof {
            lemma_stride_step(a0 as int, sa as int, t as int, n as int);
            lemma_stride_step(b0 as int, sb as int, t as int, n as int);
        }
        sum = sum.plus(a[ia].times(b[ib]));
        t = t + 1;
        if t < n {
            ia = ia + sa;
            ib = ib + sb;
        }
    }
    sum
}

pub fn sum_strided<T: Scalar>(a: &Vec<T>, a0: usize, sa: usize, n: usize) -> (r: T)
    requires
        n > 0 ==> a0 + (n - 1) * sa < a@.len(),
    ensures
        r == strided_sum(a@, a0 as int, sa as int, n as nat),
{
    assert(a@.len() == a.len());
    let mut sum = T::zero();
    let mut ia = a0;
    let mut t: usize = 0;
    while t < n
        invariant
            t <= n,
            a@.len() <= usize::MAX,
            n > 0 ==> a0 + (n - 1) * sa < a@.len(),
            t < n ==> ia == a0 + t * sa,
            sum == strided_sum(a@, a0 as int, sa as int, t as nat),
        decreases n - t,
    {
        proof {
            lemma_stride_step(a0 as int, sa as int, t as int, n as int);
        }
        sum = sum.plus(a[ia]);
        t = t + 1;
        if t < n {
            ia = ia + sa;
        }
    }
    sum
}

/// A vector of `n` copies of `value`.
pub fn filled<T: Copy>(value: T, n: usize) -> (r: Vec<T>)
    ensures
        r@ == Seq::new(n as nat, |i: int| value),
{
    let mut r: Vec<T> = Vec::new();
    let mut i: usize = 0;
    while i < n
        invariant
            i <= n,
            r@ == Seq::new(i as nat, |k: int| value),
        decreases n - i,
    {
        r.push(value);
        assert(r@ =~= Seq::new((i + 1) as nat, |k: int| value));
        i = i + 1;
    }
    r
}

/// A copy of `v`.
pub fn copied<T: Copy>(v: &Vec<T>) -> (r: Vec<T>)
    ensures
        r@ == v@,
{
    let mut r: Vec<T> = Vec::new();
    let n = v.len();
    let mut i: usize = 0;
    while i < n
        invariant
            i <= n,
            n == v@.len(),
            r@ == v@.subrange(0, i as int),
        decreases n - i,
    {
        r.push(v[i]);
        assert(r@ =~= v@.subrange(0, i + 1));
        i = i + 1;
    }
    assert(v@.subrange(0, n as int) =~= v@);
    r
}

/// Elementwise sum of two sequences of equal length.
pub open spec fn plus_seq<T: Scalar>(a: Seq<T>, b: Seq<T>) -> Seq<T> {
    Seq::new(a.len(), |i: int| a[i].plus_spec(b[i]))
}

/// Elementwise difference of two sequences of equal length.
pub open spec fn minus_seq<T: Scalar>(a: Seq<T>, b: Seq<T>) -> Seq<T> {
    Seq::new(a.len(), |i: int| a[i].minus_spec(b[i]))
}

/// Elementwise product of two sequences of equal length.
pub open spec fn times_seq<T: Scalar>(a: Seq<T>, b: Seq<T>) -> Seq<T> {
    Seq::new(a.len(), |i: int| a[i].times_spec(b[i]))
}

pub fn plus_vec<T: Scalar>(a: &Vec<T>, b: &Vec<T>) -> (r: Vec<T>)
    requires
        a@.len() == b@.len(),
    ensures
        r@ == plus_seq(a@, b@),
{
    let n = a.len();
    let mut r: Vec<T> = Vec::new();
    let mut i: usize = 0;
    while i < n
        invariant
            i <= n,
            n == a@.len(),
            n == b@.len(),
            r@.len() == i,
            forall|k: int| 0 <= k < i ==> r@[k] == a@[k].plus_spec(b@[k]),
        decreases n - i,
    {
        r.push(a[i].plus(b[i]));
        i = i + 1;
    }
    assert(r@ =~= plus_seq(a@, b@));
    r
}

pub fn minus_vec<T: Scalar>(a: &Vec<T>, b: &Vec<T>) -> (r: Vec<T>)
    requires
        a@.len() == b@.len(),
    ensures
        r@ == minus_seq(a@, b@),
{
    let n = a.len();
    let mut r: Vec<T> = Vec::new();
    let mut i: usize = 0;
    while i < n
        invariant
            i <= n,
            n == a@.len(),
            n == b@.len(),
            r@.len() == i,
            forall|k: int| 0 <= k < i ==> r@[k] == a@[k].minus_spec(b@[k]),
        decreases n - i,
    {
        r.push(a[i].minus(b[i]));
        i = i + 1;
    }
    assert(r@ =~= minus_seq(a@, b@));
    r
}

pub fn times_vec<T: Scalar>(a: &Vec<T>, b: &Vec<T>) -> (r: Vec<T>)
    requires
        a@.len() == b@.len(),
    ensures
        r@ == times_seq(a@, b@),
{
    let n = a.len();
    let mut r: Vec<T> = Vec::new();
    let mut i: usize = 0;
    while i < n
        invariant
            i <= n,
            n == a@.len(),
            n == b@.len(),
            r@.len() == i,
            forall|k: int| 0 <= k < i ==> r@[k] == a@[k].times_spec(b@[k]),
        decreases n - i,
    {
        r.push(a[i].times(b[i]));
        i = i + 1;
    }
    assert(r@ =~= times_seq(a@, b@));
    r
}

proof fn lemma_grid_bounds(i: int, rows: int, stride: int, n: int, step: int)
    by (nonlinear_arith)
    requires
        0 <= i < rows,
        0 <= stride,
        0 <= step,
        0 < n,
    ensures
        0 <= i * stride <= (rows - 1) * stride,
        i * stride + (n - 1) * step <= (rows - 1) * stride + (n - 1) * step,
{
}

/// A `rows × cols` grid of dot products of length `n`: cell `(i, j)` pairs
/// the elements of `a` from `i * a_row` in steps of `a_step` with the
/// elements of `b` from `j * b_col` in steps of `b_step`.
pub fn dot_grid<T: Scalar>(
    a: &Vec<T>,
    a_row: usize,
    a_step: usize,
    b: &Vec<T>,
    b_col: usize,
    b_step: usize,
    rows: usize,
    cols: usize,
    n: usize,
) -> (r: Vec<T>)
    requires
        rows * cols <= usize::MAX,
        rows > 0 && n > 0 ==> (rows - 1) * a_row + (n - 1) * a_step < a@.len(),
        cols > 0 && n > 0 ==> (cols - 1) * b_col + (n - 1) * b_step < b@.len(),
    ensures
        r@.len() == rows * cols,
        forall|i: int, j: int|
            0 <= i < rows && 0 <= j < cols ==> 0 <= flat2(i, j, cols as int) < r@.len()
                && #[trigger] r@[flat2(i, j, cols as int)] == dot(
                a@,
                i * a_row,
                a_step as int,
                b@,
                j * b_col,
                b_step as int,
                n as nat,
            ),
{
    proof {
        lemma_len_fits(a);
        lemma_len_fits(b);
    }
    let mut result: Vec<T> = Vec::new();
    let mut i: usize = 0;
    while i < rows
        invariant
            i <= rows,
            a@.len() <= usize::MAX,
            b@.len() <= usize::MAX,
            rows > 0 && n > 0 ==> (rows - 1) * a_row + (n - 1) * a_step < a@.len(),
            cols > 0 && n > 0 ==> (cols - 1) * b_col + (n - 1) * b_step < b@.len(),
            result@.len() == i * cols,
            forall|i2: int, j2: int|
                0 <= i2 && 0 <= j2 < cols && flat2(i2, j2, cols as int) < result@.len()
                    ==> #[trigger] result@[flat2(i2, j2, cols as int)] == dot(
                    a@,
                    i2 * a_row,
                    a_step as int,
                    b@,
                    j2 * b_col,
                    b_step as int,
                    n as nat,
                ),
        decreases rows - i,
    {
        let mut j: usize = 0;
        while j < cols
            invariant
                i < rows,
                j <= cols,
                a@.len() <= usize::MAX,
                b@.len() <= usize::MAX,
                rows > 0 && n > 0 ==> (rows - 1) * a_row + (n - 1) * a_step < a@.len(),
                cols > 0 && n > 0 ==> (cols - 1) * b_col + (n - 1) * b_step < b@.len(),
                result@.len() == i * cols + j,
                forall|i2: int, j2: int|
                    0 <= i2 && 0 <= j2 < cols && flat2(i2, j2, cols as int) < result@.len()
                        ==> #[trigger] result@[flat2(i2, j2, cols as int)] == dot(
                        a@,
                        i2 * a_row,
                        a_step as int,
                        b@,
                        j2 * b_col,
                        b_step as int,
                        n as nat,
                    ),
            decreases cols - j,
        {
            let cell = if n == 0 {
                T::zero()
            } else {
                proof {
                    lemma_grid_bounds(
                        i as int,
                        rows as int,
                        a_row as int,
                        n as int,
                        a_step as int,
                    );
                    lemma_grid_bounds(
                        j as int,
                        cols as int,
                        b_col as int,
                        n as int,
                        b_step as int,
                    );
                }
                strided_dot(a, i * a_row, a_step, b, j * b_col, b_step, n)
            };
            let ghost before = result@;
            result.push(cell);
            assert forall|i2: int, j2: int|
                0 <= i2 && 0 <= j2 < cols && flat2(i2, j2, cols as int)
                    < result@.len() implies #[trigger] result@[flat2(i2, j2, cols as int)] == dot(
                a@,
                i2 * a_row,
                a_step as int,
                b@,
                j2 * b_col,
                b_step as int,
                n as nat,
            ) by {
                lemma_flat2_order(i2, j2, i as int, j as int, cols as int);
                if flat2(i2, j2, cols as int) < before.len() {
                    assert(result@[flat2(i2, j2, cols as int)] == before[flat2(
                        i2,
                        j2,
                        cols as int,
                    )]);
                }
            }
            j = j + 1;
        }
        assert(i * cols + cols == (i + 1) * cols) by (nonlinear_arith);
        i = i + 1;
    }
    assert forall|i2: int, j2: int| 0 <= i2 < rows && 0 <= j2 < cols implies 0 <= #[trigger] flat2(
        i2,
        j2,
        cols as int,
    ) < result@.len() by {
        lemma_flat2_bound(i2, j2, rows as int, cols as int);
    }
    result
}

} // verus!
