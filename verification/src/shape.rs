//! Shapes, element counts and row-major positions.

use vstd::prelude::*;

verus! {

/// The number of elements of an array of the given shape: the product of its
/// extents, one for the empty shape.
pub open spec fn numel(shape: Seq<usize>) -> nat
    decreases shape.len(),
{
    if shape.len() == 0 {
        1
    } else {
        numel(shape.drop_last()) * (shape.last() as nat)
    }
}

/// Row-major position of `(i, j)` in rows of length `n`.
pub open spec fn flat2(i: int, j: int, n: int) -> int {
    i * n + j
}

/// Row-major position of `(i, j, k)` in an array with trailing extents `(n, p)`.
pub open spec fn flat3(i: int, j: int, k: int, n: int, p: int) -> int {
    flat2(flat2(i, j, n), k, p)
}

/// Row-major position of `(i, j, k, l)` in an array with trailing extents
/// `(n, p, q)`.
pub open spec fn flat4(i: int, j: int, k: int, l: int, n: int, p: int, q: int) -> int {
    flat2(flat3(i, j, k, n, p), l, q)
}

/// A position inside the array lies before its end.
pub proof fn lemma_flat2_bound(i: int, j: int, m: int, n: int)
    by (nonlinear_arith)
    requires
        0 <= i < m,
        0 <= j < n,
    ensures
        0 <= flat2(i, j, n) < m * n,
        flat2(i, j, n) + (n - j) <= m * n,
{
}

/// Positions are ordered as their coordinates are, lexicographically.
pub proof fn lemma_flat2_order(i1: int, j1: int, i2: int, j2: int, n: int)
    by (nonlinear_arith)
    requires
        0 <= i1,
        0 <= i2,
        0 <= j1 < n,
        0 <= j2 < n,
    ensures
        flat2(i1, j1, n) == flat2(i2, j2, n) ==> i1 == i2 && j1 == j2,
        flat2(i1, j1, n) < flat2(i2, j2, n) <==> i1 < i2 || (i1 == i2 && j1 < j2),
{
    if i1 < i2 {
        assert((i1 + 1) * n <= i2 * n);
    }
    if i2 < i1 {
        assert((i2 + 1) * n <= i1 * n);
    }
}

/// Every position before the end of the array is that of a pair of
/// coordinates inside it.
pub proof fn lemma_flat2_cell(at: int, rows: int, n: int)
    requires
        0 <= at < rows * n,
        0 < n,
    ensures
        0 <= at / n < rows,
        0 <= at % n < n,
        at == flat2(at / n, at % n, n),
{
    vstd::arithmetic::div_mod::lemma_fundamental_div_mod(at, n);
    vstd::arithmetic::div_mod::lemma_mod_bound(at, n);
    vstd::arithmetic::div_mod::lemma_div_pos_is_pos(at, n);
    assert(n * (at / n) == (at / n) * n) by (nonlinear_arith);
    if at / n >= rows {
        assert((at / n) * n >= rows * n) by (nonlinear_arith)
            requires
                at / n >= rows,
                n > 0,
        ;
    }
}

pub proof fn lemma_flat3_bound(i: int, j: int, k: int, m: int, n: int, p: int)
    requires
        0 <= i < m,
        0 <= j < n,
        0 <= k < p,
    ensures
        0 <= flat3(i, j, k, n, p) < m * n * p,
        0 <= flat2(i, j, n) < m * n,
{
    lemma_flat2_bound(i, j, m, n);
    lemma_flat2_bound(flat2(i, j, n), k, m * n, p);
}

pub proof fn lemma_flat4_bound(i: int, j: int, k: int, l: int, m: int, n: int, p: int, q: int)
    requires
        0 <= i < m,
        0 <= j < n,
        0 <= k < p,
        0 <= l < q,
    ensures
        0 <= flat4(i, j, k, l, n, p, q) < m * n * p * q,
        0 <= flat3(i, j, k, n, p) < m * n * p,
        0 <= flat2(i, j, n) < m * n,
{
    lemma_flat3_bound(i, j, k, m, n, p);
    lemma_flat2_bound(flat3(i, j, k, n, p), l, m * n * p, q);
}

pub proof fn lemma_flat3_injective(
    i1: int,
    j1: int,
    k1: int,
    i2: int,
    j2: int,
    k2: int,
    n: int,
    p: int,
)
    requires
        0 <= i1,
        0 <= i2,
        0 <= j1 < n,
        0 <= j2 < n,
        0 <= k1 < p,
        0 <= k2 < p,
        flat3(i1, j1, k1, n, p) == flat3(i2, j2, k2, n, p),
    ensures
        i1 == i2 && j1 == j2 && k1 == k2,
{
    lemma_flat2_bound(i1, j1, i1 + 1, n);
    lemma_flat2_bound(i2, j2, i2 + 1, n);
    lemma_flat2_order(flat2(i1, j1, n), k1, flat2(i2, j2, n), k2, p);
    lemma_flat2_order(i1, j1, i2, j2, n);
}

pub proof fn lemma_flat4_injective(
    i1: int,
    j1: int,
    k1: int,
    l1: int,
    i2: int,
    j2: int,
    k2: int,
    l2: int,
    n: int,
    p: int,
    q: int,
)
    requires
        0 <= i1,
        0 <= i2,
        0 <= j1 < n,
        0 <= j2 < n,
        0 <= k1 < p,
        0 <= k2 < p,
        0 <= l1 < q,
        0 <= l2 < q,
        flat4(i1, j1, k1, l1, n, p, q) == flat4(i2, j2, k2, l2, n, p, q),
    ensures
        i1 == i2 && j1 == j2 && k1 == k2 && l1 == l2,
{
    lemma_flat3_bound(i1, j1, k1, i1 + 1, n, p);
    lemma_flat3_bound(i2, j2, k2, i2 + 1, n, p);
    lemma_flat2_order(flat3(i1, j1, k1, n, p), l1, flat3(i2, j2, k2, n, p), l2, q);
    lemma_flat3_injective(i1, j1, k1, i2, j2, k2, n, p);
}

/// Dropping trailing extents of a shape without a zero extent cannot enlarge
/// the element count.
proof fn lemma_numel_prefix(shape: Seq<usize>, n: int)
    requires
        0 <= n <= shape.len(),
        forall|i: int| 0 <= i < shape.len() ==> shape[i] > 0,
    ensures
        1 <= numel(shape.subrange(0, n)) <= numel(shape),
    decreases shape.len() - n,
{
    if n < shape.len() {
        lemma_numel_prefix(shape, n + 1);
        let t = shape.subrange(0, n + 1);
        assert(t.drop_last() =~= shape.subrange(0, n));
        assert(t.last() == shape[n]);
        assert(numel(shape.subrange(0, n)) <= numel(t)) by (nonlinear_arith)
            requires
                numel(t) == numel(shape.subrange(0, n)) * (shape[n] as nat),
                shape[n] > 0,
        ;
        lemma_numel_positive(shape.subrange(0, n));
    } else {
        assert(shape.subrange(0, n) =~= shape);
        lemma_numel_positive(shape);
    }
}

proof fn lemma_numel_positive(shape: Seq<usize>)
    requires
        forall|i: int| 0 <= i < shape.len() ==> shape[i] > 0,
    ensures
        numel(shape) >= 1,
    decreases shape.len(),
{
    if shape.len() > 0 {
        lemma_numel_positive(shape.drop_last());
        assert(numel(shape.drop_last()) * (shape.last() as nat) >= 1) by (nonlinear_arith)
            requires
                numel(shape.drop_last()) >= 1,
                shape.last() >= 1,
        ;
    }
}

/// A shape with a zero extent has no elements.
pub proof fn lemma_numel_zero(shape: Seq<usize>, k: int)
    requires
        0 <= k < shape.len(),
        shape[k] == 0,
    ensures
        numel(shape) == 0,
    decreases shape.len(),
{
    if k == shape.len() - 1 {
        assert(numel(shape.drop_last()) * 0 == 0);
    } else {
        lemma_numel_zero(shape.drop_last(), k);
        assert(0 * (shape.last() as nat) == 0);
    }
}

pub proof fn lemma_numel_1(shape: Seq<usize>)
    requires
        shape.len() == 1,
    ensures
        numel(shape) == shape[0],
{
    let rest = shape.drop_last();
    assert(rest.len() == 0);
    assert(numel(rest) == 1);
    assert(shape.last() == shape[0]);
    assert(numel(shape) == numel(rest) * (shape.last() as nat));
    assert(1 * (shape[0] as nat) == shape[0]);
}

pub proof fn lemma_numel_2(shape: Seq<usize>)
    requires
        shape.len() == 2,
    ensures
        numel(shape) == shape[0] * shape[1],
{
    lemma_numel_1(shape.drop_last());
}

pub proof fn lemma_numel_3(shape: Seq<usize>)
    requires
        shape.len() == 3,
    ensures
        numel(shape) == shape[0] * shape[1] * shape[2],
{
    lemma_numel_2(shape.drop_last());
}

pub proof fn lemma_numel_4(shape: Seq<usize>)
    requires
        shape.len() == 4,
    ensures
        numel(shape) == shape[0] * shape[1] * shape[2] * shape[3],
{
    lemma_numel_3(shape.drop_last());
}

/// The element count of a shape, if it fits in `usize`.
pub fn checked_numel(shape: &Vec<usize>) -> (r: Option<usize>)
    ensures
        numel(shape@) <= usize::MAX ==> r == Some(numel(shape@) as usize),
        numel(shape@) > usize::MAX ==> r is None,
{
    let n = shape.len();
    let mut i: usize = 0;
    while i < n
        invariant
            i <= n,
            n == shape@.len(),
            forall|k: int| 0 <= k < i ==> shape@[k] > 0,
        decreases n - i,
    {
        if shape[i] == 0 {
            proof {
                lemma_numel_zero(shape@, i as int);
            }
            return Some(0);
        }
        i = i + 1;
    }
    let mut product: usize = 1;
    let mut j: usize = 0;
    assert(shape@.subrange(0, 0) =~= Seq::<usize>::empty());
    while j < n
        invariant
            j <= n,
            n == shape@.len(),
            forall|k: int| 0 <= k < shape@.len() ==> shape@[k] > 0,
            product == numel(shape@.subrange(0, j as int)),
        decreases n - j,
    {
        let ghost t = shape@.subrange(0, j + 1);
        assert(t.drop_last() =~= shape@.subrange(0, j as int));
        assert(t.last() == shape@[j as int]);
        match product.checked_mul(shape[j]) {
            Some(p) => {
                product = p;
            },
            None => {
                proof {
                    lemma_numel_prefix(shape@, j + 1);
                }
                return None;
            },
        }
        j = j + 1;
    }
    assert(shape@.subrange(0, n as int) =~= shape@);
    Some(product)
}

/// Whether two shapes are the same.
pub fn same_shape(a: &Vec<usize>, b: &Vec<usize>) -> (r: bool)
    ensures
        r == (a@ == b@),
{
    if a.len() != b.len() {
        return false;
    }
    let n = a.len();
    let mut i: usize = 0;
    while i < n
        invariant
            i <= n,
            n == a@.len(),
            n == b@.len(),
            forall|k: int| 0 <= k < i ==> a@[k] == b@[k],
        decreases n - i,
    {
        if a[i] != b[i] {
            return false;
        }
        i = i + 1;
    }
    assert(a@ =~= b@);
    true
}

/// Whether a shape is `(a)`.
pub fn is_shape1(shape: &Vec<usize>, a: usize) -> (r: bool)
    ensures
        r == (shape@ == seq![a]),
{
    let r = shape.len() == 1 && shape[0] == a;
    proof {
        if r {
            assert(shape@ =~= seq![a]);
        } else if shape@.len() == 1 {
            assert(seq![a][0] == a);
        }
    }
    r
}

/// Whether a shape is `(a, b)`.
pub fn is_shape2(shape: &Vec<usize>, a: usize, b: usize) -> (r: bool)
    ensures
        r == (shape@ == seq![a, b]),
{
    let r = shape.len() == 2 && shape[0] == a && shape[1] == b;
    proof {
        if r {
            assert(shape@ =~= seq![a, b]);
        } else if shape@.len() == 2 {
            assert(seq![a, b][0] == a && seq![a, b][1] == b);
        }
    }
    r
}

/// Whether a shape is `(a, b, c, d)`.
pub fn is_shape4(shape: &Vec<usize>, a: usize, b: usize, c: usize, d: usize) -> (r: bool)
    ensures
        r == (shape@ == seq![a, b, c, d]),
{
    let r = shape.len() == 4 && shape[0] == a && shape[1] == b && shape[2] == c && shape[3] == d;
    proof {
        let want = seq![a, b, c, d];
        if r {
            assert(shape@ =~= want);
        } else if shape@.len() == 4 {
            assert(want[0] == a && want[1] == b && want[2] == c && want[3] == d);
        }
    }
    r
}

/// A copy of a shape.
pub fn copy_shape(a: &Vec<usize>) -> (r: Vec<usize>)
    ensures
        r@ == a@,
{
    let mut r: Vec<usize> = Vec::new();
    let n = a.len();
    let mut i: usize = 0;
    while i < n
        invariant
            i <= n,
            n == a@.len(),
            r@ == a@.subrange(0, i as int),
        decreases n - i,
    {
        r.push(a[i]);
        assert(r@ =~= a@.subrange(0, i + 1));
        i = i + 1;
    }
    assert(a@.subrange(0, n as int) =~= a@);
    r
}

/// The end of one row is the start of the next.
pub proof fn lemma_flat2_carry(i: int, n: int)
    by (nonlinear_arith)
    ensures
        flat2(i, n, n) == flat2(i + 1, 0, n),
        flat2(0, 0, n) == 0,
{
}

/// A product does not shrink when a positive factor is appended.
pub proof fn lemma_product_grows(a: int, h: int)
    by (nonlinear_arith)
    requires
        0 <= a,
        1 <= h,
    ensures
        a <= a * h,
{
}

/// A product is monotone in both factors.
pub proof fn lemma_product_monotone(a: int, b: int, c: int, d: int)
    by (nonlinear_arith)
    requires
        0 <= a <= c,
        0 <= b <= d,
    ensures
        0 <= a * b <= c * d,
{
}

/// Computes the row-major position of `(i, j)`.
pub fn index2(i: usize, j: usize, n: usize) -> (r: usize)
    requires
        j < n,
        flat2(i as int, j as int, n as int) <= usize::MAX,
    ensures
        r == flat2(i as int, j as int, n as int),
{
    assert(0 <= i * n) by (nonlinear_arith)
        requires
            0 <= i,
            0 <= n,
    ;
    i * n + j
}

/// Computes the row-major position of `(i, j, k)`.
pub fn index3(i: usize, j: usize, k: usize, n: usize, p: usize) -> (r: usize)
    requires
        j < n,
        k < p,
        flat3(i as int, j as int, k as int, n as int, p as int) <= usize::MAX,
    ensures
        r == flat3(i as int, j as int, k as int, n as int, p as int),
{
    proof {
        lemma_flat2_bound(i as int, j as int, i + 1, n as int);
        lemma_product_grows(flat2(i as int, j as int, n as int), p as int);
    }
    index2(index2(i, j, n), k, p)
}

/// Computes the row-major position of `(i, j, k, l)`.
pub fn index4(i: usize, j: usize, k: usize, l: usize, n: usize, p: usize, q: usize) -> (r: usize)
    requires
        j < n,
        k < p,
        l < q,
        flat4(i as int, j as int, k as int, l as int, n as int, p as int, q as int) <= usize::MAX,
    ensures
        r == flat4(i as int, j as int, k as int, l as int, n as int, p as int, q as int),
{
    proof {
        lemma_flat3_bound(i as int, j as int, k as int, i + 1, n as int, p as int);
        lemma_product_grows(flat3(i as int, j as int, k as int, n as int, p as int), q as int);
    }
    index2(index3(i, j, k, n, p), l, q)
}

/// Builds the shape `[a, b, c, d]`.
pub fn shape4(a: usize, b: usize, c: usize, d: usize) -> (r: Vec<usize>)
    ensures
        r@ == seq![a, b, c, d],
        numel(r@) == a * b * c * d,
{
    let mut r: Vec<usize> = Vec::new();
    r.push(a);
    r.push(b);
    r.push(c);
    r.push(d);
    assert(r@ =~= seq![a, b, c, d]);
    proof {
        lemma_numel_4(r@);
    }
    r
}

/// Builds the shape `[a, b]`.
pub fn shape2(a: usize, b: usize) -> (r: Vec<usize>)
    ensures
        r@ == seq![a, b],
        numel(r@) == a * b,
{
    let mut r: Vec<usize> = Vec::new();
    r.push(a);
    r.push(b);
    assert(r@ =~= seq![a, b]);
    proof {
        lemma_numel_2(r@);
    }
    r
}

/// Builds the shape `[a]`.
pub fn shape1(a: usize) -> (r: Vec<usize>)
    ensures
        r@ == seq![a],
        numel(r@) == a,
{
    let mut r: Vec<usize> = Vec::new();
    r.push(a);
    assert(r@ =~= seq![a]);
    proof {
        lemma_numel_1(r@);
    }
    r
}

proof fn lemma_flat2_lower(i: int, j: int, m: int, n: int)
    by (nonlinear_arith)
    requires
        0 <= m <= i,
        0 <= j,
        0 <= n,
    ensures
        flat2(i, j, n) >= m * n,
        m * n >= 0,
{
}

/// A position before the end of an array of leading extent `m` has a
/// leading coordinate below `m`.
pub proof fn lemma_flat4_leading(i: int, j: int, k: int, l: int, m: int, n: int, p: int, q: int)
    requires
        0 <= i,
        0 <= m,
        0 <= j < n,
        0 <= k < p,
        0 <= l < q,
        flat4(i, j, k, l, n, p, q) < m * n * p * q,
    ensures
        i < m,
{
    if i >= m {
        lemma_flat2_lower(i, j, m, n);
        lemma_flat2_lower(flat2(i, j, n), k, m * n, p);
        lemma_flat2_lower(flat3(i, j, k, n, p), l, m * n * p, q);
    }
}

/// A product of four extents is positive only if each of them is.
pub proof fn lemma_product4_positive(a: int, b: int, c: int, d: int)
    by (nonlinear_arith)
    requires
        0 <= a,
        0 <= b,
        0 <= c,
        0 <= d,
        a * b * c * d > 0,
    ensures
        a > 0 && b > 0 && c > 0 && d > 0,
{
}

/// A position in a four-dimensional array, as coordinates.
#[derive(Clone, Copy, Debug)]
pub struct Cursor4 {
    pub i: usize,
    pub j: usize,
    pub k: usize,
    pub l: usize,
}

impl Cursor4 {
    /// The flat position of the cursor in an array with trailing extents
    /// `(n, p, q)`.
    pub open spec fn position(self, n: int, p: int, q: int) -> int {
        flat4(self.i as int, self.j as int, self.k as int, self.l as int, n, p, q)
    }

    pub open spec fn inside(self, n: int, p: int, q: int) -> bool {
        self.j < n && self.k < p && self.l < q
    }

    pub fn start() -> (r: Self)
        ensures
            r.i == 0 && r.j == 0 && r.k == 0 && r.l == 0,
            forall|n: int, p: int, q: int| #[trigger] r.position(n, p, q) == 0,
    {
        assert forall|n: int, p: int, q: int|
            flat4(0, 0, 0, 0, n, p, q) == 0 by {
            lemma_flat2_carry(0, n);
            lemma_flat2_carry(0, p);
            lemma_flat2_carry(0, q);
        }
        Cursor4 { i: 0, j: 0, k: 0, l: 0 }
    }

    /// Moves to the next position in row-major order.
    pub fn advance(&mut self, n: usize, p: usize, q: usize)
        requires
            old(self).inside(n as int, p as int, q as int),
            old(self).i < usize::MAX,
        ensures
            final(self).inside(n as int, p as int, q as int),
            final(self).position(n as int, p as int, q as int) == old(self).position(
                n as int,
                p as int,
                q as int,
            ) + 1,
    {
        proof {
            lemma_flat2_carry(
                flat3(self.i as int, self.j as int, self.k as int, n as int, p as int),
                q as int,
            );
            lemma_flat2_carry(flat2(self.i as int, self.j as int, n as int), p as int);
            lemma_flat2_carry(self.i as int, n as int);
            lemma_flat2_carry(flat2(self.i as int, self.j + 1, n as int), p as int);
            lemma_flat2_carry(flat3(self.i as int, self.j as int, self.k + 1, n as int, p as int), q as int);
            lemma_flat2_carry(flat3(self.i as int, self.j + 1, 0, n as int, p as int), q as int);
            lemma_flat2_carry(flat3(self.i + 1, 0, 0, n as int, p as int), q as int);
            lemma_flat2_carry(flat2(self.i + 1, 0, n as int), p as int);
        }
        self.l = self.l + 1;
        if self.l == q {
            self.l = 0;
            self.k = self.k + 1;
            if self.k == p {
                self.k = 0;
                self.j = self.j + 1;
                if self.j == n {
                    self.j = 0;
                    self.i = self.i + 1;
                }
            }
        }
    }
}

/// The product of four extents that can be represented.
pub fn product4(a: usize, b: usize, c: usize, d: usize) -> (r: usize)
    requires
        a * b * c * d <= usize::MAX,
    ensures
        r == a * b * c * d,
{
    if a == 0 || b == 0 || c == 0 || d == 0 {
        assert(a * b * c * d == 0) by (nonlinear_arith)
            requires
                a == 0 || b == 0 || c == 0 || d == 0,
        ;
        0
    } else {
        proof {
            assert(0 <= a * b) by (nonlinear_arith)
                requires
                    0 <= a,
                    0 <= b,
            ;
            lemma_product_grows(a * b, c as int);
            lemma_product_grows(a * b * c, d as int);
        }
        a * b * c * d
    }
}

/// The product of four extents, if it can be represented.
pub fn checked_product4(a: usize, b: usize, c: usize, d: usize) -> (r: Option<usize>)
    ensures
        a * b * c * d <= usize::MAX ==> r == Some((a * b * c * d) as usize),
        a * b * c * d > usize::MAX ==> r is None,
{
    let mut dims: Vec<usize> = Vec::new();
    dims.push(a);
    dims.push(b);
    dims.push(c);
    dims.push(d);
    proof {
        lemma_numel_4(dims@);
    }
    checked_numel(&dims)
}

/// The element count is the first extent times the element count of the
/// remaining extents.
pub proof fn lemma_numel_first(shape: Seq<usize>)
    requires
        shape.len() >= 1,
    ensures
        numel(shape) == shape[0] * numel(shape.skip(1)),
    decreases shape.len(),
{
    if shape.len() == 1 {
        lemma_numel_1(shape);
        assert(shape.skip(1).len() == 0);
        assert(numel(shape.skip(1)) == 1);
        assert(shape[0] * 1 == shape[0]);
    } else {
        let front = shape.drop_last();
        lemma_numel_first(front);
        assert(front.skip(1) =~= shape.skip(1).drop_last());
        assert(shape.skip(1).last() == shape.last());
        assert(front[0] == shape[0]);
        let rest = numel(front.skip(1));
        let last = shape.last() as nat;
        assert(numel(shape.skip(1)) == rest * last);
        assert((shape[0] * rest) * last == shape[0] * (rest * last)) by (nonlinear_arith);
    }
}

} // verus!
